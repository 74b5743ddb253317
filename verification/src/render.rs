//! The human rendering of what bitplane prints.
//!
//! Results go to stdout and failures to stderr in both modes; only the
//! rendering changes, and `--json` is the only switch. Every line of the human
//! envelope maps to exactly one field: `error[<tag>]: <message>`, one indented
//! row per problem, `remedy: <sentence>`. `code` is not printed: it is the
//! exit status. The JSON line itself is serialised by the caller and framed
//! here.

use vstd::prelude::*;
use crate::error::{message_of, ErrorEnvelope, Problem};
use crate::member::member_text;
use crate::outcome::{skip_reason_text, Outcome, PerMember};
use crate::text::{chars_of, joined, owned, push_seq, push_spaces, push_str, trim_end, trimmed_end, views};
use crate::wire::CreatedMember;
use crate::create::PlaneCreated;

verus! {

/// Whether output is for a person or a program.
#[derive(Debug, Clone, Copy, PartialEq, Eq, Structural)]
pub enum Rendering {
    Human,
    Json,
}

/// The widest cell of column `c`, in characters.
pub open spec fn column_width(rows: Seq<Seq<Seq<char>>>, c: int) -> nat
    decreases rows.len(),
{
    if rows.len() == 0 {
        0
    } else {
        let w = rows.last()[c].len();
        let rest = column_width(rows.drop_last(), c);
        if w > rest {
            w
        } else {
            rest
        }
    }
}

/// One cell as it prints: padded to its column's width, but for the last.
pub open spec fn padded_cells(rows: Seq<Seq<Seq<char>>>, row: Seq<Seq<char>>) -> Seq<Seq<char>> {
    Seq::new(
        row.len(),
        |c: int|
            if c + 1 == row.len() {
                row[c]
            } else {
                row[c] + Seq::new((column_width(rows, c) - row[c].len()) as nat, |i: int| ' ')
            },
    )
}

/// Indented rows with every column but the last padded to its widest cell:
/// the one grammar every fan-out and every problem block uses.
pub open spec fn columns_text(rows: Seq<Seq<Seq<char>>>, all: Seq<Seq<Seq<char>>>, separator: Seq<char>) -> Seq<char>
    decreases rows.len(),
{
    if rows.len() == 0 {
        Seq::empty()
    } else {
        columns_text(rows.drop_last(), all, separator) + "  "@ + trim_end(
            joined(padded_cells(all, rows.last()), separator),
        ) + "\n"@
    }
}

/// A problem's two cells: its subject, blank where it has none, and its
/// sentence.
pub open spec fn problem_cells(p: Problem) -> Seq<Seq<char>> {
    seq![
        match p.subject {
            Some(s) => s@,
            None => Seq::empty(),
        },
        p.message@,
    ]
}

/// The rows of a problem block.
pub open spec fn problem_rows(ps: Seq<Problem>) -> Seq<Seq<Seq<char>>> {
    Seq::new(ps.len(), |i: int| problem_cells(ps[i]))
}

/// The human envelope: the tag and message; the problems as an indented
/// block where there are any; the remedy where there is one.
pub open spec fn human_text(env: ErrorEnvelope) -> Seq<char> {
    let rows = problem_rows(env.problems@);
    "error["@ + env.error@ + "]: "@ + env.message@ + "\n"@ + (if env.problems@.len() == 0 {
        Seq::empty()
    } else {
        "\n"@ + columns_text(rows, rows, "  "@)
    }) + match env.remedy {
        Some(r) => "\nremedy: "@ + r@ + "\n"@,
        None => Seq::empty(),
    }
}

/// A created member's four cells: who, branch, what happened, where.
pub open spec fn member_cells(row: PerMember<CreatedMember>) -> Seq<Seq<char>> {
    match row.outcome {
        Outcome::Completed(m) => seq![
            member_text(row.member),
            m.branch@,
            if m.unwound {
                "removed"@
            } else if m.created_branch {
                "created (new branch)"@
            } else {
                "created"@
            },
            m.path@,
        ],
        Outcome::AlreadyDone => seq![member_text(row.member), "-"@, "unchanged"@, "-"@],
        Outcome::Skipped(reason) => seq![
            member_text(row.member),
            "-"@,
            "skipped: "@ + skip_reason_text(reason),
            "-"@,
        ],
        Outcome::Failed(e) => seq![member_text(row.member), "-"@, "failed: "@ + message_of(e), "-"@],
    }
}

/// The cells of a table, as data.
pub open spec fn table_view(rows: Seq<Vec<String>>) -> Seq<Seq<Seq<char>>> {
    Seq::new(rows.len(), |i: int| views_of(rows[i]@))
}

/// The texts of a row's cells.
pub open spec fn views_of(cells: Seq<String>) -> Seq<Seq<char>> {
    Seq::new(cells.len(), |i: int| cells[i]@)
}

/// Whether every row has `n` cells.
pub open spec fn rectangular(rows: Seq<Seq<Seq<char>>>, n: nat) -> bool {
    forall|i: int| 0 <= i < rows.len() ==> #[trigger] rows[i].len() == n
}

proof fn lemma_width_covers(rows: Seq<Seq<Seq<char>>>, c: int, r: int)
    requires
        0 <= r < rows.len(),
    ensures
        rows[r][c].len() <= column_width(rows, c),
    decreases rows.len(),
{
    if r < rows.len() - 1 {
        lemma_width_covers(rows.drop_last(), c, r);
    }
}

fn count_chars(s: &String) -> (n: usize)
    ensures
        n == s@.len(),
{
    s.as_str().unicode_len()
}

/// Indented rows with every column but the last padded to its widest
/// cell, trailing whitespace trimmed from each line.
pub fn columns(rows: &Vec<Vec<String>>, separator: &str, n: usize) -> (text: String)
    requires
        n >= 1,
        rectangular(table_view(rows@), n as nat),
    ensures
        text@ == columns_text(table_view(rows@), table_view(rows@), separator@),
{
    let ghost all = table_view(rows@);
    let mut widths: Vec<usize> = Vec::new();
    let mut c: usize = 0;
    while c < n
        invariant
            c <= n,
            all == table_view(rows@),
            rectangular(all, n as nat),
            widths@.len() == c,
            forall|k: int| 0 <= k < c ==> #[trigger] widths@[k] == column_width(all, k),
        decreases n - c,
    {
        let mut w: usize = 0;
        let mut r: usize = 0;
        assert(all.subrange(0, 0) =~= Seq::<Seq<Seq<char>>>::empty());
        while r < rows.len()
            invariant
                r <= rows@.len(),
                c < n,
                all == table_view(rows@),
                rectangular(all, n as nat),
                w == column_width(all.subrange(0, r as int), c as int),
            decreases rows.len() - r,
        {
            let ghost upto = all.subrange(0, r as int + 1);
            assert(upto.drop_last() =~= all.subrange(0, r as int));
            assert(all[r as int].len() == n);
            assert(upto.last()[c as int] == rows@[r as int]@[c as int]@);
            let cell_len = count_chars(&rows[r][c]);
            if cell_len > w {
                w = cell_len;
            }
            r = r + 1;
        }
        assert(all.subrange(0, rows@.len() as int) =~= all);
        widths.push(w);
        c = c + 1;
    }
    let mut text = String::new();
    let mut r: usize = 0;
    assert(all.subrange(0, 0) =~= Seq::<Seq<Seq<char>>>::empty());
    while r < rows.len()
        invariant
            r <= rows@.len(),
            all == table_view(rows@),
            rectangular(all, n as nat),
            n >= 1,
            widths@.len() == n,
            forall|k: int| 0 <= k < n ==> #[trigger] widths@[k] == column_width(all, k),
            text@ == columns_text(all.subrange(0, r as int), all, separator@),
        decreases rows.len() - r,
    {
        let row = &rows[r];
        assert(all[r as int].len() == n);
        let ghost cells = padded_cells(all, all[r as int]);
        let mut line: Vec<char> = Vec::new();
        let mut k: usize = 0;
        while k < n
            invariant
                k <= n,
                r < rows@.len(),
                n >= 1,
                all == table_view(rows@),
                rectangular(all, n as nat),
                row@ == rows@[r as int]@,
                widths@.len() == n,
                forall|q: int| 0 <= q < n ==> #[trigger] widths@[q] == column_width(all, q),
                cells == padded_cells(all, all[r as int]),
                k == 0 ==> line@ == Seq::<char>::empty(),
                k > 0 ==> line@ == joined(cells.subrange(0, k as int), separator@),
            decreases n - k,
        {
            assert(all[r as int].len() == n);
            let ghost before = line@;
            if k > 0 {
                let sep = chars_of(separator);
                let mut q: usize = 0;
                while q < sep.len()
                    invariant
                        q <= sep@.len(),
                        line@ == before + sep@.subrange(0, q as int),
                    decreases sep.len() - q,
                {
                    line.push(sep[q]);
                    q = q + 1;
                    assert(line@ =~= before + sep@.subrange(0, q as int));
                }
                assert(sep@.subrange(0, sep@.len() as int) =~= separator@);
            }
            let ghost middle = line@;
            let cell = chars_of(rows[r][k].as_str());
            assert(cell@ == all[r as int][k as int]);
            let mut q: usize = 0;
            while q < cell.len()
                invariant
                    q <= cell@.len(),
                    line@ == middle + cell@.subrange(0, q as int),
                decreases cell.len() - q,
            {
                line.push(cell[q]);
                q = q + 1;
                assert(line@ =~= middle + cell@.subrange(0, q as int));
            }
            assert(cell@.subrange(0, cell@.len() as int) =~= cell@);
            if k + 1 < n {
                proof {
                    lemma_width_covers(all, k as int, r as int);
                }
                let pad = widths[k] - cell.len();
                let ghost unpadded = line@;
                let mut q: usize = 0;
                while q < pad
                    invariant
                        q <= pad,
                        line@ == unpadded + Seq::new(q as nat, |i: int| ' '),
                    decreases pad - q,
                {
                    line.push(' ');
                    q = q + 1;
                    assert(line@ =~= unpadded + Seq::new(q as nat, |i: int| ' '));
                }
            }
            assert(cells[k as int] == if k + 1 == n {
                all[r as int][k as int]
            } else {
                all[r as int][k as int] + Seq::new(
                    (column_width(all, k as int) - all[r as int][k as int].len()) as nat,
                    |i: int| ' ',
                )
            });
            let ghost done = cells.subrange(0, k as int + 1);
            assert(done.drop_last() =~= cells.subrange(0, k as int));
            assert(done.last() == cells[k as int]);
            if k == 0 {
                assert(line@ =~= joined(done, separator@));
            } else {
                assert(line@ =~= joined(done, separator@));
            }
            k = k + 1;
        }
        assert(cells.len() == n);
        assert(cells.subrange(0, n as int) =~= cells);
        let trimmed_line = trimmed_end(line.as_slice());
        let ghost upto = all.subrange(0, r as int + 1);
        assert(upto.drop_last() =~= all.subrange(0, r as int));
        assert(upto.last() == all[r as int]);
        push_str(&mut text, "  ");
        push_seq(&mut text, trimmed_line.as_slice());
        push_str(&mut text, "\n");
        r = r + 1;
    }
    assert(all.subrange(0, rows@.len() as int) =~= all);
    text
}

/// A problem's two cells.
pub fn problem_row(problem: &Problem) -> (cells: Vec<String>)
    ensures
        views_of(cells@) == problem_cells(*problem),
{
    let subject = match &problem.subject {
        Some(s) => s.clone(),
        None => String::new(),
    };
    let mut cells: Vec<String> = Vec::new();
    cells.push(subject);
    cells.push(problem.message.clone());
    assert(views_of(cells@) =~= problem_cells(*problem));
    cells
}

/// A created member's row: `<member>  <branch>  <outcome>  <path>`, a dash
/// where there is nothing to report.
pub fn member_row(row: &PerMember<CreatedMember>) -> (cells: Vec<String>)
    ensures
        views_of(cells@) == member_cells(*row),
{
    let who = row.member.to_text();
    let mut cells: Vec<String> = Vec::new();
    cells.push(who);
    match &row.outcome {
        Outcome::Completed(m) => {
            cells.push(m.branch.clone());
            cells.push(
                if m.unwound {
                    owned("removed")
                } else if m.created_branch {
                    owned("created (new branch)")
                } else {
                    owned("created")
                },
            );
            cells.push(m.path.to_text());
        },
        Outcome::AlreadyDone => {
            cells.push(owned("-"));
            cells.push(owned("unchanged"));
            cells.push(owned("-"));
        },
        Outcome::Skipped(reason) => {
            cells.push(owned("-"));
            let mut s = owned("skipped: ");
            push_str(&mut s, reason.reason());
            cells.push(s);
            cells.push(owned("-"));
        },
        Outcome::Failed(e) => {
            cells.push(owned("-"));
            let mut s = owned("failed: ");
            let m = e.message();
            push_str(&mut s, m.as_str());
            cells.push(s);
            cells.push(owned("-"));
        },
    }
    assert(views_of(cells@) =~= member_cells(*row));
    cells
}

/// The human rendering of a failure: one line per field.
pub fn human_envelope(envelope: &ErrorEnvelope) -> (text: String)
    ensures
        text@ == human_text(*envelope),
{
    let mut text = owned("error[");
    push_str(&mut text, envelope.error.as_str());
    push_str(&mut text, "]: ");
    push_str(&mut text, envelope.message.as_str());
    push_str(&mut text, "\n");
    let ghost head = text@;
    if envelope.problems.len() > 0 {
        let mut rows: Vec<Vec<String>> = Vec::new();
        let mut i: usize = 0;
        while i < envelope.problems.len()
            invariant
                i <= envelope.problems@.len(),
                rows@.len() == i,
                forall|k: int|
                    0 <= k < i ==> #[trigger] views_of(rows@[k]@) == problem_cells(envelope.problems@[k]),
            decreases envelope.problems.len() - i,
        {
            rows.push(problem_row(&envelope.problems[i]));
            i = i + 1;
        }
        assert(table_view(rows@) =~= problem_rows(envelope.problems@));
        push_str(&mut text, "\n");
        let block = columns(&rows, "  ", 2);
        push_str(&mut text, block.as_str());
    }
    if let Some(remedy) = &envelope.remedy {
        push_str(&mut text, "\nremedy: ");
        push_str(&mut text, remedy.as_str());
        push_str(&mut text, "\n");
    }
    text
}

/// A failure, for stderr: the human rendering, or the envelope's JSON line,
/// serialised by the caller, framed as one line.
pub fn envelope(failure: &ErrorEnvelope, rendering: Rendering, json: &str) -> (text: String)
    ensures
        rendering == Rendering::Human ==> text@ == human_text(*failure),
        rendering == Rendering::Json ==> text@ == json@ + "\n"@,
{
    match rendering {
        Rendering::Json => {
            let mut text = owned(json);
            push_str(&mut text, "\n");
            text
        },
        Rendering::Human => human_envelope(failure),
    }
}

/// The member rows of a created plane, as data.
pub open spec fn created_rows(members: Seq<PerMember<CreatedMember>>) -> Seq<Seq<Seq<char>>> {
    Seq::new(members.len(), |i: int| member_cells(members[i]))
}

/// A created plane for a person: the id and the directory, then one row
/// per member in the order they were named, then, where an unwind could not
/// take everything back, the way out.
pub open spec fn created_text(created: PlaneCreated) -> Seq<char> {
    let rows = created_rows(created.members@);
    created.id@ + "  "@ + created.directory@ + "\n\n"@ + columns_text(rows, rows, "  "@) + if created.remnant {
        "\n"@ + created.id@ + " could not be fully removed; run bp destroy -p "@ + created.id@
            + " to clear the remnant.\n"@
    } else {
        Seq::empty()
    }
}

/// A created plane, for stdout.
pub fn created_plane(created: &PlaneCreated) -> (text: String)
    ensures
        text@ == created_text(*created),
{
    let mut rows: Vec<Vec<String>> = Vec::new();
    let mut i: usize = 0;
    while i < created.members.len()
        invariant
            i <= created.members@.len(),
            rows@.len() == i,
            forall|k: int| 0 <= k < i ==> #[trigger] views_of(rows@[k]@) == member_cells(created.members@[k]),
        decreases created.members.len() - i,
    {
        rows.push(member_row(&created.members[i]));
        i = i + 1;
    }
    assert(table_view(rows@) =~= created_rows(created.members@));
    assert forall|k: int| 0 <= k < table_view(rows@).len() implies #[trigger] table_view(rows@)[k].len() == 4 by {
        assert(table_view(rows@)[k] == member_cells(created.members@[k]));
    }
    let mut text = owned(created.id.as_str());
    push_str(&mut text, "  ");
    push_str(&mut text, created.directory.as_str());
    push_str(&mut text, "\n\n");
    let block = columns(&rows, "  ", 4);
    push_str(&mut text, block.as_str());
    if created.remnant {
        push_str(&mut text, "\n");
        push_str(&mut text, created.id.as_str());
        push_str(&mut text, " could not be fully removed; run bp destroy -p ");
        push_str(&mut text, created.id.as_str());
        push_str(&mut text, " to clear the remnant.\n");
    }
    text
}

} // verus!
