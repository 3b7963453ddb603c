//! The yearly report of a bridge club's simultaneous tournaments: which
//! tournaments of the federation's list fall in a period, the places each
//! player of the club took in them, the prizes those places earn, and the
//! totals of the period.

pub mod testo;
pub mod giocatore;
pub mod ordine;
pub mod confronti;
pub mod circolo;
pub mod torneo;
pub mod data;
pub mod intervallo;
pub mod pagina;
pub mod resoconto;
pub mod montepremi;
