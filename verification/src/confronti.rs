//! `==` and `<` between players: two players are equal when they have the
//! same name, and ordered as the report orders them.

use vstd::prelude::*;
use vstd::std_specs::cmp::{PartialEqSpecImpl, PartialOrdSpecImpl};
use crate::giocatore::Player;
use crate::ordine::precede;

verus! {

impl PartialEq for Player {
    fn eq(&self, other: &Player) -> (r: bool) {
        self.nome == other.nome
    }
}

impl PartialEqSpecImpl for Player {
    open spec fn obeys_eq_spec() -> bool {
        true
    }

    open spec fn eq_spec(&self, other: &Player) -> bool {
        self.nome@ == other.nome@
    }
}

impl Eq for Player {
}

impl PartialOrd for Player {
    fn partial_cmp(&self, other: &Player) -> (r: Option<std::cmp::Ordering>) {
        Some(self.confronta(other))
    }
}

impl PartialOrdSpecImpl for Player {
    open spec fn obeys_partial_cmp_spec() -> bool {
        true
    }

    open spec fn partial_cmp_spec(&self, other: &Player) -> Option<std::cmp::Ordering> {
        if precede(self@, other@) {
            Some(std::cmp::Ordering::Less)
        } else if precede(other@, self@) {
            Some(std::cmp::Ordering::Greater)
        } else {
            Some(std::cmp::Ordering::Equal)
        }
    }
}

} // verus!
