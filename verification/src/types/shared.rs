//! Where the structures that many records share end: notes, source
//! citations, multimedia links and change dates. Each may hold the others, so
//! they are read, and described here, together.
use vstd::prelude::*;
use crate::parser::{value_at, continued_end, spec_child_level, step_subset_end, subset_walk, value_end, value_flat_end, value_subset_end};
use crate::tokenizer::{state_measure, step, take_value, SpecToken, TokState};
use crate::types::date::Date;
use crate::types::multimedia::file::Reference;
use crate::types::multimedia::format::Format;
use crate::types::multimedia::user::UserReferenceNumber;
use crate::types::source::citation::data::Data;
use crate::types::source::quay::assessment_of;
use crate::types::translation::Translation;

verus! {

/// Which of the shared structures a walk reads.
pub enum Shared {
    Note,
    Citation,
    Multimedia,
    ChangeDate,
}

/// Where reading a certainty assessment stops, from its tag at `st`: its
/// value must name an assessment.
pub open spec fn assessment_end(s: Seq<char>, st: TokState) -> Result<TokState, ()> {
    match take_value(s, st) {
        Ok((st1, v)) => if assessment_of(v) is Some {
            Ok(st1)
        } else {
            Err(())
        },
        Err(_) => Err(()),
    }
}

/// Where reading the structure `k` at `level` stops, from its tag at `st`;
/// `Err` where reading fails. A note and a citation start with the value of
/// the tag's line, a multimedia link and a change date with the next token.
pub open spec fn shared_end(k: Shared, s: Seq<char>, st: TokState, level: u8) -> Result<TokState, ()>
    decreases state_measure(s, st), 0nat,
{
    let first = match k {
        Shared::Note | Shared::Citation => match take_value(s, st) {
            Ok((st1, _)) => Ok(st1),
            Err(_) => Err(()),
        },
        _ => step(s, st),
    };
    match first {
        Ok(st1) => if state_measure(s, st1) < state_measure(s, st) {
            shared_lines_end(k, s, st1, level)
        } else {
            Err(())
        },
        Err(_) => Err(()),
    }
}

/// Where handling the tag `t`, the token at `st`, below the structure `k` at
/// `level` stops; `Err` where it fails.
pub open spec fn shared_tag_end(k: Shared, s: Seq<char>, st: TokState, t: Seq<char>, level: u8) -> Result<TokState, ()>
    decreases state_measure(s, st), 1nat,
{
    let cl = spec_child_level(level);
    match k {
        Shared::Note => if t == "MIME"@ {
            value_end(s, st)
        } else if t == "TRAN"@ {
            value_flat_end::<Translation>(s, st, cl)
        } else if t == "LANG"@ || t == "CONC"@ || t == "CONT"@ {
            value_end(s, st)
        } else if t == "SOUR"@ {
            shared_end(Shared::Citation, s, st, cl)
        } else {
            Err(())
        },
        Shared::Citation => if t == "PAGE"@ {
            continued_end(s, st, cl)
        } else if t == "DATA"@ {
            step_subset_end::<Data>(s, st, cl)
        } else if t == "NOTE"@ {
            shared_end(Shared::Note, s, st, cl)
        } else if t == "QUAY"@ {
            assessment_end(s, st)
        } else if t == "RFN"@ {
            value_end(s, st)
        } else if t == "OBJE"@ {
            shared_end(Shared::Multimedia, s, st, cl)
        } else {
            value_end(s, st)
        },
        Shared::Multimedia => if t == "FILE"@ {
            value_subset_end::<Reference>(s, st, cl)
        } else if t == "FORM"@ {
            value_flat_end::<Format>(s, st, cl)
        } else if t == "TITL"@ {
            value_end(s, st)
        } else if t == "REFN"@ {
            value_flat_end::<UserReferenceNumber>(s, st, cl)
        } else if t == "RIN"@ {
            value_end(s, st)
        } else if t == "NOTE"@ {
            shared_end(Shared::Note, s, st, cl)
        } else if t == "SOUR"@ {
            shared_end(Shared::Citation, s, st, cl)
        } else if t == "CHAN"@ {
            shared_end(Shared::ChangeDate, s, st, cl)
        } else {
            Err(())
        },
        Shared::ChangeDate => if t == "DATE"@ {
            value_flat_end::<Date>(s, st, cl)
        } else if t == "NOTE"@ {
            shared_end(Shared::Note, s, st, cl)
        } else {
            Err(())
        },
    }
}

/// Where reading the lines below the structure `k` at `level` stops, from
/// `st` on: at the first line at `level` or less. `Err` where reading fails.
pub open spec fn shared_lines_end(k: Shared, s: Seq<char>, st: TokState, level: u8) -> Result<TokState, ()>
    decreases state_measure(s, st), 2nat,
{
    match subset_walk(s, st, level) {
        Ok(st1) => match st1.token {
            SpecToken::Tag(t) => if state_measure(s, st1) <= state_measure(s, st) {
                match shared_tag_end(k, s, st1, t, level) {
                    Ok(st2) => if state_measure(s, st2) < state_measure(s, st) {
                        shared_lines_end(k, s, st2, level)
                    } else {
                        Err(())
                    },
                    Err(_) => Err(()),
                }
            } else {
                Err(())
            },
            _ => Ok(st1),
        },
        Err(_) => Err(()),
    }
}

/// One turn over the lines below the structure `k`: where the walk from
/// `before` stops at the tag `t` at `at`, reading on from `before` fails where
/// handling the tag fails, and otherwise goes on from where handling stops.
pub proof fn lemma_shared_lines_step(k: Shared, s: Seq<char>, before: TokState, at: TokState, t: Seq<char>, level: u8)
    requires
        subset_walk(s, before, level) == Ok::<TokState, ()>(at),
        at.token == SpecToken::Tag(t),
        state_measure(s, at) <= state_measure(s, before),
    ensures
        shared_tag_end(k, s, at, t, level) is Err ==> shared_lines_end(k, s, before, level) is Err,
        shared_tag_end(k, s, at, t, level) matches Ok(st2) ==> (state_measure(s, st2) < state_measure(s, before)
            ==> shared_lines_end(k, s, before, level) == shared_lines_end(k, s, st2, level)
                && shared_kids(k, s, before, level) == seq![(t, at)] + shared_kids(k, s, st2, level)),
{
}

/// The standard tags met while reading the lines below the structure `k` at
/// `level`, from `st` on, each with the state at it, in order.
pub open spec fn shared_kids(k: Shared, s: Seq<char>, st: TokState, level: u8) -> Seq<(Seq<char>, TokState)>
    decreases state_measure(s, st),
{
    match subset_walk(s, st, level) {
        Ok(st1) => match st1.token {
            SpecToken::Tag(t) => if state_measure(s, st1) <= state_measure(s, st) {
                match shared_tag_end(k, s, st1, t, level) {
                    Ok(st2) => if state_measure(s, st2) < state_measure(s, st) {
                        seq![(t, st1)] + shared_kids(k, s, st2, level)
                    } else {
                        Seq::empty()
                    },
                    Err(_) => Seq::empty(),
                }
            } else {
                Seq::empty()
            },
            _ => Seq::empty(),
        },
        Err(_) => Seq::empty(),
    }
}

/// The text of a note: its first value, then each `CONC` value after it, and
/// each `CONT` value after a line break, in order.
pub open spec fn note_text(first: Seq<char>, s: Seq<char>, kids: Seq<(Seq<char>, TokState)>) -> Seq<char>
    decreases kids.len(),
{
    if kids.len() == 0 {
        first
    } else {
        let acc = note_text(first, s, kids.drop_last());
        if kids.last().0 == "CONC"@ {
            acc + value_at(s, kids.last().1)
        } else if kids.last().0 == "CONT"@ {
            acc.push('\n') + value_at(s, kids.last().1)
        } else {
            acc
        }
    }
}

/// The text of a note read at `level` from its tag at `st`.
pub open spec fn note_value_at(s: Seq<char>, st: TokState, level: u8) -> Seq<char> {
    match take_value(s, st) {
        Ok((st1, first)) => note_text(first, s, shared_kids(Shared::Note, s, st1, level)),
        Err(_) => Seq::empty(),
    }
}

/// Where the walk from `before` stops at the end of the structure, reading
/// the lines below the structure `k` stops there too.
pub proof fn lemma_shared_lines_done(k: Shared, s: Seq<char>, before: TokState, at: TokState, level: u8)
    requires
        subset_walk(s, before, level) == Ok::<TokState, ()>(at),
        !(at.token is Tag),
    ensures
        shared_lines_end(k, s, before, level) == Ok::<TokState, ()>(at),
        shared_kids(k, s, before, level) == Seq::<(Seq<char>, TokState)>::empty(),
{
}

} // verus!
