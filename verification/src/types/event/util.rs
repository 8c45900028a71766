//! Records that hold events.
use vstd::prelude::*;
use crate::text::string_views;
use crate::types::date::Date;
use crate::types::event::detail::{keeps_when_where, place_name, Detail};
use crate::types::place::Place;

verus! {

/// The dates of the events that have one, in order.
pub open spec fn event_dates(events: Seq<Detail>) -> Seq<Date>
    decreases events.len(),
{
    if events.len() == 0 {
        Seq::empty()
    } else {
        event_dates(events.drop_last()) + match events.last().date {
            Some(d) => seq![d],
            None => Seq::empty(),
        }
    }
}

/// The names (where given) of the places of the events that have a place, in order.
pub open spec fn event_place_values(events: Seq<Detail>) -> Seq<Option<String>>
    decreases events.len(),
{
    if events.len() == 0 {
        Seq::empty()
    } else {
        event_place_values(events.drop_last()) + match events.last().place {
            Some(p) => seq![p.value],
            None => Seq::empty(),
        }
    }
}

/// The names of the places of the events that have a named place, in order.
pub open spec fn event_place_names(events: Seq<Detail>) -> Seq<Seq<char>>
    decreases events.len(),
{
    if events.len() == 0 {
        Seq::empty()
    } else {
        event_place_names(events.drop_last()) + match place_name(events.last().place) {
            Some(n) => seq![n@],
            None => Seq::empty(),
        }
    }
}

/// The names (where given) of places.
pub open spec fn place_values(places: Seq<Place>) -> Seq<Option<String>> {
    places.map_values(|p: Place| p.value)
}

/// A record that holds a list of events.
pub trait HasEvents {
    /// The events of the record.
    spec fn event_list(&self) -> Seq<Detail>;

    /// Whether the record takes `event` as one more of its events.
    spec fn accepts_event(&self, event: Detail) -> bool;

    /// Adds an event after the others.
    fn add_event(&mut self, event: Detail)
        requires
            old(self).accepts_event(event),
        ensures
            final(self).event_list() == old(self).event_list().push(event);

    /// A copy of the events.
    fn events(&self) -> (r: Vec<Detail>)
        ensures
            r@.len() == self.event_list().len(),
            forall|i: int| 0 <= i < r@.len() ==> keeps_when_where(#[trigger] r@[i], self.event_list()[i]);

    /// Copies of the dates of the events that have one, in order.
    fn dates(&self) -> (r: Vec<Date>)
        ensures
            r@ == event_dates(self.event_list()),
    {
        let events = self.events();
        let ghost list = self.event_list();
        let mut dates: Vec<Date> = Vec::new();
        let mut i: usize = 0;
        while i < events.len()
            invariant
                i <= events@.len(),
                events@.len() == list.len(),
                forall|k: int| 0 <= k < events@.len() ==> keeps_when_where(#[trigger] events@[k], list[k]),
                dates@ == event_dates(list.subrange(0, i as int)),
            decreases events@.len() - i,
        {
            proof {
                assert(list.subrange(0, i + 1).drop_last() =~= list.subrange(0, i as int));
                assert(keeps_when_where(events@[i as int], list[i as int]));
            }
            if let Some(d) = &events[i].date {
                dates.push(d.clone());
            }
            i = i + 1;
        }
        proof {
            assert(list.subrange(0, list.len() as int) =~= list);
        }
        dates
    }

    /// Copies of the places of the events that have one, in order.
    fn places(&self) -> (r: Vec<Place>)
        ensures
            place_values(r@) == event_place_values(self.event_list()),
    {
        let events = self.events();
        let ghost list = self.event_list();
        let mut places: Vec<Place> = Vec::new();
        let mut i: usize = 0;
        while i < events.len()
            invariant
                i <= events@.len(),
                events@.len() == list.len(),
                forall|k: int| 0 <= k < events@.len() ==> keeps_when_where(#[trigger] events@[k], list[k]),
                place_values(places@) == event_place_values(list.subrange(0, i as int)),
            decreases events@.len() - i,
        {
            proof {
                assert(list.subrange(0, i + 1).drop_last() =~= list.subrange(0, i as int));
                assert(keeps_when_where(events@[i as int], list[i as int]));
            }
            if let Some(p) = &events[i].place {
                let c = p.clone();
                let ghost before = places@;
                places.push(c);
                proof {
                    assert(place_values(places@) =~= place_values(before).push(c.value));
                }
            }
            i = i + 1;
        }
        proof {
            assert(list.subrange(0, list.len() as int) =~= list);
        }
        places
    }

    /// The names of the places of the events that have a named place, in order.
    fn place_names(&self) -> (r: Vec<String>)
        ensures
            string_views(r@) == event_place_names(self.event_list()),
    {
        let events = self.events();
        let ghost list = self.event_list();
        let mut names: Vec<String> = Vec::new();
        let mut i: usize = 0;
        while i < events.len()
            invariant
                i <= events@.len(),
                events@.len() == list.len(),
                forall|k: int| 0 <= k < events@.len() ==> keeps_when_where(#[trigger] events@[k], list[k]),
                string_views(names@) == event_place_names(list.subrange(0, i as int)),
            decreases events@.len() - i,
        {
            proof {
                assert(list.subrange(0, i + 1).drop_last() =~= list.subrange(0, i as int));
                assert(keeps_when_where(events@[i as int], list[i as int]));
            }
            if let Some(p) = &events[i].place {
                if let Some(v) = &p.value {
                    let c = v.clone();
                    let ghost before = names@;
                    names.push(c);
                    proof {
                        assert(string_views(names@) =~= string_views(before).push(c@));
                    }
                }
            }
            i = i + 1;
        }
        proof {
            assert(list.subrange(0, list.len() as int) =~= list);
        }
        names
    }
}

} // verus!
