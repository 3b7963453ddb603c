//! A tournament: its pairs in the order of the final ranking, and the
//! places they bring to the players of the club.

use vstd::prelude::*;
use crate::circolo::{Circolo, dopo_piazzamento, piazzamento_possibile};
use crate::giocatore::GiocatoreV;

verus! {

/// A tournament and its ranking: `posizioni[0]` is the winning pair,
/// each pair given by the codes of its two players.
pub struct Tournament {
    _codice: String,
    posizioni: Vec<[String; 2]>,
}

/// The codes of the pairs, in ranking order.
pub open spec fn coppie(posizioni: Seq<[String; 2]>) -> Seq<(Seq<char>, Seq<char>)> {
    posizioni.map_values(|c: [String; 2]| (c[0]@, c[1]@))
}

/// The club after pair `c` took place `posizione` among `partecipanti`
/// pairs: first its first player, then its second.
pub open spec fn dopo_coppia(
    m: Map<Seq<char>, GiocatoreV>,
    c: (Seq<char>, Seq<char>),
    posizione: int,
    partecipanti: int,
) -> Map<Seq<char>, GiocatoreV> {
    dopo_piazzamento(dopo_piazzamento(m, c.0, posizione, partecipanti), c.1, posizione, partecipanti)
}

/// Recording the place of pair `c` panics nowhere.
pub open spec fn coppia_possibile(
    m: Map<Seq<char>, GiocatoreV>,
    c: (Seq<char>, Seq<char>),
    posizione: int,
    partecipanti: int,
) -> bool {
    &&& piazzamento_possibile(m, c.0, posizione, partecipanti)
    &&& piazzamento_possibile(dopo_piazzamento(m, c.0, posizione, partecipanti), c.1, posizione, partecipanti)
}

/// The club after the first `k` places of ranking `cs` are recorded.
pub open spec fn premiazione(
    m: Map<Seq<char>, GiocatoreV>,
    cs: Seq<(Seq<char>, Seq<char>)>,
    k: int,
) -> Map<Seq<char>, GiocatoreV>
    decreases k,
{
    if k <= 0 {
        m
    } else {
        dopo_coppia(premiazione(m, cs, k - 1), cs[k - 1], k - 1, cs.len() as int)
    }
}

/// Recording the first `k` places of ranking `cs` panics nowhere.
pub open spec fn premiazione_possibile(
    m: Map<Seq<char>, GiocatoreV>,
    cs: Seq<(Seq<char>, Seq<char>)>,
    k: int,
) -> bool
    decreases k,
{
    if k <= 0 {
        true
    } else {
        &&& premiazione_possibile(m, cs, k - 1)
        &&& coppia_possibile(premiazione(m, cs, k - 1), cs[k - 1], k - 1, cs.len() as int)
    }
}

/// How many of the first `k` pairs of `cs` player `x` plays in.
pub open spec fn occorrenze(cs: Seq<(Seq<char>, Seq<char>)>, k: int, x: Seq<char>) -> int
    decreases k,
{
    if k <= 0 {
        0
    } else {
        occorrenze(cs, k - 1, x) + (if cs[k - 1].0 == x { 1int } else { 0 }) + (if cs[k - 1].1 == x {
            1int
        } else {
            0
        })
    }
}

/// Giving the places of a tournament keeps the club's players, their names
/// and their membership; each player has played once more for each time
/// they appear in the ranking.
pub proof fn lemma_premiazione_conserva_e_conta(
    m: Map<Seq<char>, GiocatoreV>,
    cs: Seq<(Seq<char>, Seq<char>)>,
    k: int,
)
    requires
        0 <= k <= cs.len(),
        premiazione_possibile(m, cs, k),
    ensures
        premiazione(m, cs, k).dom() == m.dom(),
        forall|x: Seq<char>| #[trigger] m.dom().contains(x) ==> {
            &&& premiazione(m, cs, k)[x].nome == m[x].nome
            &&& premiazione(m, cs, k)[x].socio == m[x].socio
            &&& premiazione(m, cs, k)[x].giocati == m[x].giocati + occorrenze(cs, k, x)
        },
    decreases k,
{
    if k > 0 {
        lemma_premiazione_conserva_e_conta(m, cs, k - 1);
        let p = premiazione(m, cs, k - 1);
        let c = cs[k - 1];
        let p1 = dopo_piazzamento(p, c.0, k - 1, cs.len() as int);
        assert(p1.dom() =~= p.dom());
        let p2 = dopo_piazzamento(p1, c.1, k - 1, cs.len() as int);
        assert(p2.dom() =~= p1.dom());
        assert(premiazione(m, cs, k) == p2);
    }
}

proof fn lemma_possibile_prefisso(m: Map<Seq<char>, GiocatoreV>, cs: Seq<(Seq<char>, Seq<char>)>, j: int, k: int)
    requires
        0 <= j <= k,
        premiazione_possibile(m, cs, k),
    ensures
        premiazione_possibile(m, cs, j),
    decreases k - j,
{
    if j < k {
        lemma_possibile_prefisso(m, cs, j, k - 1);
    }
}

proof fn lemma_impossibile_estesa(m: Map<Seq<char>, GiocatoreV>, cs: Seq<(Seq<char>, Seq<char>)>, j: int, k: int)
    requires
        0 <= j <= k,
        !premiazione_possibile(m, cs, j),
    ensures
        !premiazione_possibile(m, cs, k),
{
    if premiazione_possibile(m, cs, k) {
        lemma_possibile_prefisso(m, cs, j, k);
    }
}

impl Tournament {
    /// A tournament with code `codice` and no pair yet.
    pub fn new(codice: &str) -> (t: Self)
        ensures
            t.codice() == codice@,
            t.classifica() == Seq::<(Seq<char>, Seq<char>)>::empty(),
    {
        Tournament { _codice: String::from_str(codice), posizioni: Vec::new() }
    }

    /// The tournament's code.
    pub closed spec fn codice(&self) -> Seq<char> {
        self._codice@
    }

    /// The codes of the pairs, in ranking order.
    pub closed spec fn classifica(&self) -> Seq<(Seq<char>, Seq<char>)> {
        coppie(self.posizioni@)
    }

    /// Appends a pair, given by the codes of its players, at the bottom of
    /// the ranking.
    pub fn aggiungi_coppia(&mut self, primo: &str, secondo: &str)
        ensures
            final(self).classifica() == old(self).classifica().push((primo@, secondo@)),
            final(self).codice() == old(self).codice(),
    {
        self.posizioni.push([String::from_str(primo), String::from_str(secondo)]);
        assert(coppie(self.posizioni@) =~= coppie(old(self).posizioni@).push((primo@, secondo@)));
    }

    /// The number of pairs.
    pub fn partecipanti(&self) -> (r: usize)
        ensures
            r == self.classifica().len(),
    {
        self.posizioni.len()
    }

    /// Gives each player of the club the place of their pair and counts
    /// the tournament as played: pair `i` of the ranking takes place `i`
    /// among all the pairs.
    pub fn dai_premi(&self, circolo: &mut Circolo)
        requires
            premiazione_possibile(old(circolo).giocatori(), self.classifica(), self.classifica().len() as int),
        ensures
            final(circolo).giocatori() == premiazione(
                old(circolo).giocatori(),
                self.classifica(),
                self.classifica().len() as int,
            ),
    {
        let partecipanti = self.posizioni.len();
        let ghost cs = coppie(self.posizioni@);
        let ghost m0 = circolo.giocatori();
        let mut i: usize = 0;
        while i < partecipanti
            invariant
                partecipanti == self.posizioni@.len(),
                cs == coppie(self.posizioni@),
                cs.len() == partecipanti,
                i <= partecipanti,
                premiazione_possibile(m0, cs, partecipanti as int),
                circolo.giocatori() == premiazione(m0, cs, i as int),
            decreases partecipanti - i,
        {
            proof {
                lemma_possibile_prefisso(m0, cs, i as int + 1, partecipanti as int);
            }
            let coppia = &self.posizioni[i];
            assert(cs[i as int] == (coppia[0]@, coppia[1]@));
            circolo.registra_piazzamento(coppia[0].as_str(), i, partecipanti);
            circolo.registra_piazzamento(coppia[1].as_str(), i, partecipanti);
            i = i + 1;
        }
    }

    /// Whether [`Tournament::dai_premi`] can give this tournament's places
    /// to `circolo` without a panic.
    pub fn premiazione_ammessa(&self, circolo: &Circolo) -> (r: bool)
        ensures
            r == premiazione_possibile(circolo.giocatori(), self.classifica(), self.classifica().len() as int),
    {
        let partecipanti = self.posizioni.len();
        let ghost cs = coppie(self.posizioni@);
        let ghost m0 = circolo.giocatori();
        let mut prova = circolo.copia();
        let mut i: usize = 0;
        while i < partecipanti
            invariant
                partecipanti == self.posizioni@.len(),
                cs == coppie(self.posizioni@),
                cs.len() == partecipanti,
                i <= partecipanti,
                premiazione_possibile(m0, cs, i as int),
                prova.giocatori() == premiazione(m0, cs, i as int),
                m0 == circolo.giocatori(),
                cs == self.classifica(),
            decreases partecipanti - i,
        {
            let coppia = &self.posizioni[i];
            assert(cs[i as int] == (coppia[0]@, coppia[1]@));
            if !prova.piazzamento_ammesso(coppia[0].as_str(), i, partecipanti) {
                proof {
                    lemma_impossibile_estesa(m0, cs, i as int + 1, partecipanti as int);
                }
                return false;
            }
            prova.registra_piazzamento(coppia[0].as_str(), i, partecipanti);
            if !prova.piazzamento_ammesso(coppia[1].as_str(), i, partecipanti) {
                proof {
                    lemma_impossibile_estesa(m0, cs, i as int + 1, partecipanti as int);
                }
                return false;
            }
            prova.registra_piazzamento(coppia[1].as_str(), i, partecipanti);
            i = i + 1;
        }
        true
    }
}

} // verus!
