//! What the command line decides before, and beside, a request: how a
//! failure is rendered when the arguments would not parse, the one sentence
//! a usage failure reports, and the reasons `--waive` accepts.

use vstd::prelude::*;
use crate::refusal::{all_reasons, reason_tag, waivable, Reason};
use crate::render::Rendering;
use crate::text::{chars_of, has_prefix, owned, push_str, slice_of, split, split_on, starts_with, string_of, trim, trimmed, views};

verus! {

/// Whether `--json` comes before any `--`: after `--` every word is a
/// value, not a flag.
pub open spec fn json_asked(args: Seq<Seq<char>>) -> bool
    decreases args.len(),
{
    if args.len() == 0 {
        false
    } else if args[0] == "--"@ {
        false
    } else if args[0] == "--json"@ {
        true
    } else {
        json_asked(args.drop_first())
    }
}

/// The texts of some strings.
pub open spec fn arg_texts(args: Seq<String>) -> Seq<Seq<char>> {
    Seq::new(args.len(), |i: int| args[i]@)
}

fn same_text(a: &str, b: &str) -> (r: bool)
    ensures
        r == (a@ == b@),
{
    let x = chars_of(a);
    let y = chars_of(b);
    crate::text::same_chars(x.as_slice(), y.as_slice())
}

/// How to render a failure the arguments would not parse into: read from
/// the raw words, since there is nothing parsed to ask.
pub fn rendering_asked_for(args: &Vec<String>) -> (r: Rendering)
    ensures
        (r == Rendering::Json) == json_asked(arg_texts(args@)),
{
    let ghost all = arg_texts(args@);
    let mut i: usize = 0;
    assert(all.subrange(0, all.len() as int) =~= all);
    while i < args.len()
        invariant
            i <= args@.len(),
            all == arg_texts(args@),
            json_asked(all) == json_asked(all.subrange(i as int, all.len() as int)),
        decreases args.len() - i,
    {
        let ghost rest = all.subrange(i as int, all.len() as int);
        assert(rest[0] == args@[i as int]@);
        assert(rest.drop_first() =~= all.subrange(i as int + 1, all.len() as int));
        if same_text(args[i].as_str(), "--") {
            return Rendering::Human;
        }
        if same_text(args[i].as_str(), "--json") {
            return Rendering::Json;
        }
        i = i + 1;
    }
    Rendering::Human
}

/// The first line of `pieces` that is not blank, trimmed.
pub open spec fn first_line(pieces: Seq<Seq<char>>) -> Option<Seq<char>>
    decreases pieces.len(),
{
    if pieces.len() == 0 {
        None
    } else if trim(pieces[0]).len() > 0 {
        Some(trim(pieces[0]))
    } else {
        first_line(pieces.drop_first())
    }
}

/// `s` with every leading `error: ` taken off.
pub open spec fn without_error_prefix(s: Seq<char>) -> Seq<char>
    decreases s.len(),
{
    if starts_with(s, "error: "@) && "error: "@.len() > 0 {
        without_error_prefix(s.subrange("error: "@.len() as int, s.len() as int))
    } else {
        s
    }
}

/// What a parser's several-line usage message comes to as one sentence.
pub open spec fn sentence_of(rendered: Seq<char>) -> Seq<char> {
    without_error_prefix(
        match first_line(split(rendered, '\n')) {
            Some(line) => line,
            None => "the command line could not be parsed"@,
        },
    )
}

/// A usage message as one sentence: its first line that is not blank,
/// trimmed, with the parser's `error: ` taken off.
pub fn one_line(rendered: &str) -> (s: String)
    ensures
        s@ == sentence_of(rendered@),
{
    let v = chars_of(rendered);
    let pieces = split_on(v.as_slice(), '\n');
    let ghost all = views(pieces@);
    let mut line: Vec<char> = Vec::new();
    let mut found = false;
    let mut i: usize = 0;
    assert(all.subrange(0, all.len() as int) =~= all);
    while i < pieces.len() && !found
        invariant
            i <= pieces@.len(),
            all == views(pieces@),
            found ==> first_line(all) == Some(line@),
            !found ==> first_line(all) == first_line(all.subrange(i as int, all.len() as int)),
        decreases pieces.len() - i,
    {
        let ghost rest = all.subrange(i as int, all.len() as int);
        assert(rest[0] == pieces@[i as int]@);
        assert(rest.drop_first() =~= all.subrange(i as int + 1, all.len() as int));
        let t = trimmed(pieces[i].as_slice());
        if t.len() > 0 {
            line = t;
            found = true;
        }
        i = i + 1;
    }
    if !found {
        assert(all.subrange(i as int, all.len() as int) =~= Seq::<Seq<char>>::empty());
        line = chars_of("the command line could not be parsed");
    }
    assert(line@ == match first_line(split(rendered@, '\n')) {
        Some(l) => l,
        None => "the command line could not be parsed"@,
    });
    let prefix = chars_of("error: ");
    let mut start: usize = 0;
    assert(line@.subrange(0, line@.len() as int) =~= line@);
    while start < line.len() && has_prefix(slice_of(line.as_slice(), start, line.len()).as_slice(), prefix.as_slice())
        invariant
            start <= line@.len(),
            prefix@ == "error: "@,
            without_error_prefix(line@) == without_error_prefix(line@.subrange(start as int, line@.len() as int)),
        decreases line.len() - start,
    {
        proof {
            reveal_strlit("error: ");
        }
        let ghost rest = line@.subrange(start as int, line@.len() as int);
        assert(rest.subrange(7, rest.len() as int) =~= line@.subrange(start as int + 7, line@.len() as int));
        start = start + 7;
    }
    proof {
        reveal_strlit("error: ");
        if start == line@.len() {
            assert(line@.subrange(start as int, line@.len() as int).len() == 0);
        }
    }
    let kept = slice_of(line.as_slice(), start, line.len());
    string_of(kept.as_slice())
}

/// The tags `--waive` accepts, in table order, separated by commas.
pub open spec fn reason_list(reasons: Seq<Reason>) -> Seq<char>
    decreases reasons.len(),
{
    if reasons.len() == 0 {
        Seq::empty()
    } else if reasons.len() == 1 {
        reason_tag(reasons[0])
    } else {
        reason_list(reasons.drop_last()) + ", "@ + reason_tag(reasons.last())
    }
}

/// One `--waive` value, checked where it is read, so a misspelled reason is
/// a usage failure rather than a waiver that silently covers nothing.
pub fn waiver(value: &str) -> (r: Result<Reason, String>)
    ensures
        r matches Ok(reason) ==> reason_tag(reason) == value@,
        r is Err <==> !waivable(value@),
        r matches Err(m) ==> m@ == "expected one of "@ + reason_list(all_reasons()),
{
    match Reason::parse(value) {
        Ok(reason) => Ok(reason),
        Err(_) => {
            let all = Reason::all();
            let mut s = owned("expected one of ");
            let ghost front = s@;
            let mut i: usize = 0;
            while i < all.len()
                invariant
                    all@ == all_reasons(),
                    i <= all@.len(),
                    front == "expected one of "@,
                    s@ == front + reason_list(all_reasons().subrange(0, i as int)),
                decreases all.len() - i,
            {
                let ghost upto = all_reasons().subrange(0, i as int + 1);
                assert(upto.drop_last() =~= all_reasons().subrange(0, i as int));
                assert(upto.last() == all@[i as int]);
                if i > 0 {
                    push_str(&mut s, ", ");
                }
                push_str(&mut s, all[i].tag());
                proof {
                    if i == 0 {
                        assert(all_reasons().subrange(0, 0) =~= Seq::<Reason>::empty());
                        assert(upto.len() == 1);
                    }
                }
                assert(s@ =~= front + reason_list(upto));
                i = i + 1;
            }
            assert(all_reasons().subrange(0, all@.len() as int) =~= all_reasons());
            Err(s)
        },
    }
}

} // verus!
