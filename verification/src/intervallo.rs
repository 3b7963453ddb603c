//! The period of the report and where a tournament's date falls in it.

use vstd::prelude::*;
use crate::data::{Data, prima, numero_data};

verus! {

/// The days from `start` to `end`, both included.
pub struct Intervallo {
    start: Data,
    end: Data,
}

impl Intervallo {
    /// The first day of the period.
    pub closed spec fn inizio(&self) -> (i32, u32, u32) {
        self.start.giorno_v()
    }

    /// The last day of the period.
    pub closed spec fn fine(&self) -> (i32, u32, u32) {
        self.end.giorno_v()
    }

    /// The period from `start` to `end`.
    pub fn new(start: Data, end: Data) -> (r: Intervallo)
        ensures
            r.inizio() == start.giorno_v(),
            r.fine() == end.giorno_v(),
    {
        Intervallo { start, end }
    }

    /// Where `data` falls: `Less` before the start, `Greater` after the end
    /// (and not before the start), `Equal` within the period.
    pub fn comprende(&self, data: Data) -> (r: std::cmp::Ordering)
        ensures
            (r == std::cmp::Ordering::Less) == prima(data.giorno_v(), self.inizio()),
            (r == std::cmp::Ordering::Greater) == (!prima(data.giorno_v(), self.inizio()) && prima(
                self.fine(),
                data.giorno_v(),
            )),
            (r == std::cmp::Ordering::Equal) == (!prima(data.giorno_v(), self.inizio()) && !prima(
                self.fine(),
                data.giorno_v(),
            )),
            (r == std::cmp::Ordering::Less) == (numero_data(data.giorno_v()) < numero_data(self.inizio())),
            (r == std::cmp::Ordering::Greater) == (numero_data(self.inizio()) <= numero_data(data.giorno_v())
                && numero_data(self.fine()) < numero_data(data.giorno_v())),
            (r == std::cmp::Ordering::Equal) == (numero_data(self.inizio()) <= numero_data(data.giorno_v())
                <= numero_data(self.fine())),
    {
        if data.prima_di(&self.start) {
            std::cmp::Ordering::Less
        } else if self.end.prima_di(&data) {
            std::cmp::Ordering::Greater
        } else {
            std::cmp::Ordering::Equal
        }
    }
}

} // verus!
