//! The jurisdictions that places in a file name.
use vstd::prelude::*;
use crate::error::GedcomError;
use crate::parser::{lemma_kids_push, step_subset_kids, tag_values, value_at, at_level_end, parse_subset, record_read, step_subset_end, tag_error, value_end, Parser, TagHandler};
use crate::text::{split_and_trim, split_trimmed, str_eq, string_views};
use crate::tokenizer::{TokState, Tokenizer};

verus! {

/// The default form of places in a file: the titles of its jurisdictions,
/// from the lowest to the highest.
#[derive(Clone, Debug)]
pub struct HeadPlac {
    pub form: Vec<String>,
}

impl HeadPlac {
    /// Adds a title after the others.
    pub fn push_jurisdictional_title(&mut self, title: String)
        ensures
            final(self).form@ == old(self).form@.push(title),
    {
        self.form.push(title);
    }

    /// Inserts a title at `index`.
    pub fn insert_jurisdictional_title(&mut self, index: usize, title: String)
        requires
            index <= old(self).form@.len(),
        ensures
            final(self).form@ == old(self).form@.insert(index as int, title),
    {
        self.form.insert(index, title);
    }

    /// Removes the title at `index`.
    pub fn remove_jurisdictional_title(&mut self, index: usize)
        requires
            index < old(self).form@.len(),
        ensures
            final(self).form@ == old(self).form@.remove(index as int),
    {
        self.form.remove(index);
    }

    /// Reads a `PLAC` structure of the header at `level`.
    pub fn new(tokenizer: &mut Tokenizer, level: u8) -> (r: Result<HeadPlac, GedcomError>)
        requires
            old(tokenizer).wf(),
            old(tokenizer).token() is Tag,
        ensures
            record_read(*old(tokenizer), *final(tokenizer), r is Ok, level),
            r is Ok <==> step_subset_end::<HeadPlac>(old(tokenizer).input(), old(tokenizer).state(), level) is Ok,
            r is Ok ==> step_subset_end::<HeadPlac>(old(tokenizer).input(), old(tokenizer).state(), level) == Ok::<TokState, ()>(final(tokenizer).state()),
            r matches Ok(x) ==> x.holds(old(tokenizer).input(), step_subset_kids::<HeadPlac>(old(tokenizer).input(), old(tokenizer).state(), level), level),
    {
        let mut head_plac = HeadPlac { form: Vec::new() };
        proof {
            assert(string_views(head_plac.form@) =~= Seq::<Seq<char>>::empty());
        }
        // In the header, PLAC has no payload.
        tokenizer.next_token()?;
        parse_subset(tokenizer, level, &mut head_plac)?;
        Ok(head_plac)
    }
}

/// The titles that `FORM` values give, in order: each value split at its
/// commas, each piece without white space at its ends.
pub open spec fn titles_of(vs: Seq<Seq<char>>) -> Seq<Seq<char>>
    decreases vs.len(),
{
    if vs.len() == 0 {
        Seq::empty()
    } else {
        titles_of(vs.drop_last()) + split_trimmed(vs.last(), ',')
    }
}

impl TagHandler for HeadPlac {
    open spec fn exact() -> bool {
        true
    }

    open spec fn tag_end(s: Seq<char>, st: TokState, t: Seq<char>, level: u8) -> Result<TokState, ()> {
        if t == "FORM"@ {
            value_end(s, st)
        } else {
            Err(())
        }
    }

    open spec fn holds(&self, s: Seq<char>, kids: Seq<(Seq<char>, TokState)>, level: u8) -> bool {
        string_views(self.form@) == titles_of(tag_values(s, kids, "FORM"@))
    }

    fn handle_tag(&mut self, tag: &str, tokenizer: &mut Tokenizer, level: u8) -> (r: Result<(), GedcomError>) {
        proof {
            reveal_strlit("FORM");
            assert("FORM"@.len() == 4);
        }
        if str_eq(tag, "FORM") {
            let form = tokenizer.take_line_value()?;
            let titles = split_and_trim(form.as_str(), ',');
            let ghost f0 = string_views(self.form@);
            let mut i: usize = 0;
            while i < titles.len()
                invariant
                    i <= titles@.len(),
                    string_views(self.form@) == f0 + string_views(titles@).take(i as int),
                decreases titles.len() - i,
            {
                let title = titles[i].clone();
                let ghost before = string_views(self.form@);
                self.push_jurisdictional_title(title);
                proof {
                    assert(string_views(self.form@) =~= before.push(title@));
                    assert(string_views(titles@).take(i + 1) =~= string_views(titles@).take(i as int).push(title@));
                }
                i = i + 1;
            }
            proof {
                assert(string_views(titles@).take(titles@.len() as int) =~= string_views(titles@));
            }
        } else {
            return Err(tag_error("Unhandled PLAC tag in header: ", tag, tokenizer.line()));
        }
        proof {
            let kid = (tag@, old(tokenizer).state());
            assert forall|kids: Seq<(Seq<char>, TokState)>| old(self).holds(old(tokenizer).input(), kids, level)
                implies #[trigger] self.holds(old(tokenizer).input(), kids.push(kid), level) by {
                lemma_kids_push(old(tokenizer).input(), kids, kid);
                let vs = tag_values(old(tokenizer).input(), kids, "FORM"@);
                assert(vs.push(value_at(old(tokenizer).input(), old(tokenizer).state())).drop_last() =~= vs);
            }
        }
        Ok(())
    }
}

impl Parser for HeadPlac {
    fn parse(&mut self, tokenizer: &mut Tokenizer, level: u8) -> (r: Result<(), GedcomError>) 
        ensures
            r is Ok ==> at_level_end(*final(tokenizer), level),
            r is Ok <==> step_subset_end::<HeadPlac>(old(tokenizer).input(), old(tokenizer).state(), level) is Ok,
            r is Ok && old(self).holds(old(tokenizer).input(), Seq::empty(), level)
                ==> final(self).holds(old(tokenizer).input(), step_subset_kids::<HeadPlac>(old(tokenizer).input(), old(tokenizer).state(), level), level),
    {
        tokenizer.next_token()?;
        parse_subset(tokenizer, level, self)?;
        Ok(())
    }
}

} // verus!
