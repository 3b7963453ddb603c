//! The club's totals over all its players: prize money and tournaments
//! played, and how one tournament's places change them.

use vstd::prelude::*;
use crate::circolo::{dopo_piazzamento, piazzamento_possibile};
use crate::giocatore::{GiocatoreV, contatore, premio, totale_premi, lemma_premio_di_un_piazzamento};
use crate::circolo::Circolo;
use crate::torneo::{Tournament, premiazione, premiazione_possibile};

verus! {

/// The sum of `f` over the players of a finite club.
pub open spec fn somma_club(m: Map<Seq<char>, GiocatoreV>, f: spec_fn(GiocatoreV) -> int) -> int
    decreases m.dom().len(),
{
    if m.dom().finite() && m.dom().len() > 0 {
        let k = m.dom().choose();
        proof {
            assert(m.remove(k).dom() =~= m.dom().remove(k));
        }
        f(m[k]) + somma_club(m.remove(k), f)
    } else {
        0
    }
}

/// Any player can be taken out of the sum first.
pub proof fn lemma_somma_club_togli(m: Map<Seq<char>, GiocatoreV>, f: spec_fn(GiocatoreV) -> int, k: Seq<char>)
    requires
        m.dom().finite(),
        m.dom().contains(k),
    ensures
        somma_club(m, f) == f(m[k]) + somma_club(m.remove(k), f),
    decreases m.dom().len(),
{
    let c = m.dom().choose();
    assert(m.remove(c).dom() =~= m.dom().remove(c));
    assert(m.remove(k).dom() =~= m.dom().remove(k));
    if c != k {
        lemma_somma_club_togli(m.remove(c), f, k);
        lemma_somma_club_togli(m.remove(k), f, c);
        assert(m.remove(c).remove(k) =~= m.remove(k).remove(c));
    }
}

/// Replacing one player changes the sum by the difference of `f`.
pub proof fn lemma_somma_club_sostituisci(
    m: Map<Seq<char>, GiocatoreV>,
    f: spec_fn(GiocatoreV) -> int,
    k: Seq<char>,
    v: GiocatoreV,
)
    requires
        m.dom().finite(),
        m.dom().contains(k),
    ensures
        somma_club(m.insert(k, v), f) == somma_club(m, f) - f(m[k]) + f(v),
{
    lemma_somma_club_togli(m, f, k);
    assert(m.insert(k, v).dom() =~= m.dom());
    lemma_somma_club_togli(m.insert(k, v), f, k);
    assert(m.insert(k, v).remove(k) =~= m.remove(k));
}

/// A player's prize money.
pub open spec fn premi_di(p: GiocatoreV) -> int {
    totale_premi(p)
}

/// The tournaments a player played.
pub open spec fn giocati_di(p: GiocatoreV) -> int {
    p.giocati as int
}

/// Each row of counters has a column for 6 to 16 pairs, as every player's
/// has.
pub open spec fn righe_valide(p: GiocatoreV) -> bool {
    &&& p.primo.len() == 11
    &&& p.secondo.len() == 11
    &&& p.terzo.len() == 11
    &&& p.quarto.len() == 11
}

/// A finite club of players whose rows have their eleven columns.
pub open spec fn club_valido(m: Map<Seq<char>, GiocatoreV>) -> bool {
    &&& m.dom().finite()
    &&& forall|x: Seq<char>| #[trigger] m.dom().contains(x) ==> righe_valide(m[x])
}

/// No counter of any player passes `limite`.
pub open spec fn contatori_entro(m: Map<Seq<char>, GiocatoreV>, limite: int) -> bool {
    forall|x: Seq<char>, i: int|
        #![trigger m[x].primo[i]]
        m.dom().contains(x) && 0 <= i < 11 ==> {
            &&& m[x].primo[i] <= limite
            &&& m[x].secondo[i] <= limite
            &&& m[x].terzo[i] <= limite
            &&& m[x].quarto[i] <= limite
        }
}

/// Twice the prizes of the first `k` places for tournaments of
/// `colonna + 6` pairs: what the first `k` pairs of a ranking earn.
pub open spec fn premi_posizioni(k: int, colonna: int) -> int
    decreases k,
{
    if k <= 0 {
        0
    } else {
        premi_posizioni(k - 1, colonna) + 2 * premio(k - 1, colonna)
    }
}

proof fn lemma_premi_posizioni(k: int, colonna: int)
    requires
        k >= 3,
    ensures
        premi_posizioni(k, colonna) == 2 * (premio(0, colonna) + premio(1, colonna) + premio(2, colonna)),
    decreases k,
{
    if k > 3 {
        lemma_premi_posizioni(k - 1, colonna);
    } else {
        reveal_with_fuel(premi_posizioni, 4);
    }
}

proof fn lemma_passo(m: Map<Seq<char>, GiocatoreV>, key: Seq<char>, pos: int, n: int)
    requires
        club_valido(m),
        0 <= pos,
        piazzamento_possibile(m, key, pos, n),
        pos <= 3 ==> contatore(m[key], pos, n) < 255,
    ensures
        club_valido(dopo_piazzamento(m, key, pos, n)),
        dopo_piazzamento(m, key, pos, n).dom() == m.dom(),
        somma_club(dopo_piazzamento(m, key, pos, n), |p: GiocatoreV| premi_di(p)) == somma_club(
            m,
            |p: GiocatoreV| premi_di(p),
        ) + premio(pos, n - 6),
        somma_club(dopo_piazzamento(m, key, pos, n), |p: GiocatoreV| giocati_di(p)) == somma_club(
            m,
            |p: GiocatoreV| giocati_di(p),
        ) + 1,
        forall|x: Seq<char>| #[trigger] m.dom().contains(x) && x != key ==> dopo_piazzamento(m, key, pos, n)[x] == m[x],
        pos <= 3 ==> contatore(dopo_piazzamento(m, key, pos, n)[key], pos, n) == contatore(m[key], pos, n) + 1,
{
    let r = dopo_piazzamento(m, key, pos, n);
    assert(r.dom() =~= m.dom());
    let p = m[key];
    if pos <= 3 {
        lemma_premio_di_un_piazzamento(p, pos, n);
    }
    lemma_somma_club_sostituisci(m, |p: GiocatoreV| premi_di(p), key, r[key]);
    lemma_somma_club_sostituisci(m, |p: GiocatoreV| giocati_di(p), key, r[key]);
    assert forall|x: Seq<char>| #[trigger] r.dom().contains(x) implies righe_valide(r[x]) by {
        assert(m.dom().contains(x));
    }
}

proof fn lemma_valido_dopo(m: Map<Seq<char>, GiocatoreV>, key: Seq<char>, pos: int, n: int)
    requires
        club_valido(m),
        piazzamento_possibile(m, key, pos, n),
    ensures
        club_valido(dopo_piazzamento(m, key, pos, n)),
{
    let r = dopo_piazzamento(m, key, pos, n);
    assert(r.dom() =~= m.dom());
    assert forall|x: Seq<char>| #[trigger] r.dom().contains(x) implies righe_valide(r[x]) by {
        assert(m.dom().contains(x));
    }
}

proof fn lemma_contatore_dopo(m: Map<Seq<char>, GiocatoreV>, key: Seq<char>, pos: int, n: int, x: Seq<char>)
    requires
        club_valido(m),
        0 <= pos <= 3,
        m.dom().contains(x),
        piazzamento_possibile(m, key, pos, n),
    ensures
        contatore(dopo_piazzamento(m, key, pos, n)[x], pos, n) >= contatore(m[x], pos, n),
{
}

proof fn lemma_contatore_limitato(m: Map<Seq<char>, GiocatoreV>, x: Seq<char>, pos: int, n: int)
    requires
        contatori_entro(m, 255),
        m.dom().contains(x),
        0 <= pos <= 3,
        6 <= n <= 16,
    ensures
        contatore(m[x], pos, n) <= 255,
{
    let _ = m[x].primo[n - 6];
}

proof fn lemma_premi_fino_a(m: Map<Seq<char>, GiocatoreV>, cs: Seq<(Seq<char>, Seq<char>)>, k: int)
    requires
        club_valido(m),
        6 <= cs.len() <= 16,
        0 <= k <= cs.len(),
        premiazione_possibile(m, cs, k),
        forall|j: int| 0 <= j <= cs.len() ==> #[trigger] contatori_entro(premiazione(m, cs, j), 255),
    ensures
        club_valido(premiazione(m, cs, k)),
        premiazione(m, cs, k).dom() == m.dom(),
        somma_club(premiazione(m, cs, k), |p: GiocatoreV| premi_di(p)) == somma_club(
            m,
            |p: GiocatoreV| premi_di(p),
        ) + premi_posizioni(k, cs.len() - 6),
        somma_club(premiazione(m, cs, k), |p: GiocatoreV| giocati_di(p)) == somma_club(
            m,
            |p: GiocatoreV| giocati_di(p),
        ) + 2 * k,
    decreases k,
{
    if k > 0 {
        let n = cs.len() as int;
        lemma_premi_fino_a(m, cs, k - 1);
        let pos = k - 1;
        let c = cs[pos];
        let p = premiazione(m, cs, pos);
        let q = dopo_piazzamento(p, c.0, pos, n);
        let r = dopo_piazzamento(q, c.1, pos, n);
        assert(premiazione(m, cs, k) == r);
        assert(contatori_entro(premiazione(m, cs, k), 255));
        lemma_valido_dopo(p, c.0, pos, n);
        if pos <= 3 {
            lemma_contatore_limitato(r, c.0, pos, n);
            lemma_contatore_limitato(r, c.1, pos, n);
            lemma_contatore_dopo(q, c.1, pos, n, c.0);
            assert(contatore(q[c.0], pos, n) == contatore(p[c.0], pos, n) + 1);
            assert(contatore(r[c.1], pos, n) == contatore(q[c.1], pos, n) + 1);
        }
        lemma_passo(p, c.0, pos, n);
        lemma_passo(q, c.1, pos, n);
    }
}

/// Giving the places of a tournament of 6 to 16 pairs adds to the club's
/// prize money twice the prizes of the first three places for that many
/// pairs, and to the tournaments played two for each pair, as long as no
/// counter passes 255 (beyond which the prize money, reading counters
/// modulo 256, wraps).
pub proof fn lemma_premi_di_un_torneo(m: Map<Seq<char>, GiocatoreV>, cs: Seq<(Seq<char>, Seq<char>)>)
    requires
        club_valido(m),
        6 <= cs.len() <= 16,
        premiazione_possibile(m, cs, cs.len() as int),
        forall|j: int| 0 <= j <= cs.len() ==> #[trigger] contatori_entro(premiazione(m, cs, j), 255),
    ensures
        somma_club(premiazione(m, cs, cs.len() as int), |p: GiocatoreV| premi_di(p)) == somma_club(
            m,
            |p: GiocatoreV| premi_di(p),
        ) + 2 * (premio(0, cs.len() - 6) + premio(1, cs.len() - 6) + premio(2, cs.len() - 6)),
        somma_club(premiazione(m, cs, cs.len() as int), |p: GiocatoreV| giocati_di(p)) == somma_club(
            m,
            |p: GiocatoreV| giocati_di(p),
        ) + 2 * cs.len(),
{
    lemma_premi_fino_a(m, cs, cs.len() as int);
    lemma_premi_posizioni(cs.len() as int, cs.len() - 6);
}

/// The same law for a club and a tournament of the library: after
/// [`Tournament::dai_premi`], whose result is [`premiazione`], the club's
/// prize money has grown by twice the prizes of the first three places
/// and its tournaments played by two for each pair.
pub proof fn lemma_montepremi_dai_premi(circolo: Circolo, torneo: Tournament)
    requires
        6 <= torneo.classifica().len() <= 16,
        premiazione_possibile(circolo.giocatori(), torneo.classifica(), torneo.classifica().len() as int),
        forall|j: int|
            0 <= j <= torneo.classifica().len() ==> #[trigger] contatori_entro(
                premiazione(circolo.giocatori(), torneo.classifica(), j),
                255,
            ),
    ensures
        ({
            let n = torneo.classifica().len() as int;
            let dopo = premiazione(circolo.giocatori(), torneo.classifica(), n);
            &&& somma_club(dopo, |p: GiocatoreV| premi_di(p)) == somma_club(
                circolo.giocatori(),
                |p: GiocatoreV| premi_di(p),
            ) + 2 * (premio(0, n - 6) + premio(1, n - 6) + premio(2, n - 6))
            &&& somma_club(dopo, |p: GiocatoreV| giocati_di(p)) == somma_club(
                circolo.giocatori(),
                |p: GiocatoreV| giocati_di(p),
            ) + 2 * n
        }),
{
    circolo.lemma_valido();
    lemma_premi_di_un_torneo(circolo.giocatori(), torneo.classifica());
}

} // verus!
