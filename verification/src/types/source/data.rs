//! The data of a source record: the events it records and who is responsible for it.
use vstd::prelude::*;
use crate::types::event::detail::Detail;

verus! {

/// What a source records (`DATA` of a source record): its events and the
/// agency responsible for it.
#[derive(Clone, Debug)]
pub struct Data {
    pub(crate) events: Vec<Detail>,
    pub agency: Option<String>,
}

impl Default for Data {
    fn default() -> (r: Self)
        ensures
            r.event_list().len() == 0,
            r.agency_value() is None,
    {
        Data { events: Vec::new(), agency: None }
    }
}

impl Data {
    /// The events that the source records.
    pub closed spec fn event_list(&self) -> Seq<Detail> {
        self.events@
    }

    /// The agency responsible for the source.
    pub closed spec fn agency_value(&self) -> Option<String> {
        self.agency
    }

    /// What the two views of the data are.
    pub(crate) proof fn lemma_fields(&self)
        ensures
            self.agency_value() == self.agency,
            self.event_list() == self.events@,
    {
    }

    /// Adds a recorded event.
    pub fn add_event(&mut self, event: Detail)
        ensures
            final(self).event_list() == old(self).event_list().push(event),
            final(self).agency_value() == old(self).agency_value(),
    {
        self.events.push(event);
    }
}

} // verus!
