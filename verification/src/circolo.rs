//! The club: every player met in the tournaments of the report, found
//! again by player code.

use vstd::prelude::*;
use crate::ordine::precede;
use crate::montepremi::{club_valido, righe_valide};
use crate::giocatore::{GiocatoreV, Player, nuovo_giocatore, premiato, ha_giocato, premiabile};

verus! {

/// One player of the club with its code.
pub struct Voce {
    pub codice: String,
    pub giocatore: Player,
}

/// The players of the report, by player code. No code occurs twice.
pub struct Circolo {
    voci: Vec<Voce>,
}

/// The map from the codes of the first `n` entries to their players.
pub open spec fn mappa(voci: Seq<Voce>, n: int) -> Map<Seq<char>, GiocatoreV>
    decreases n,
{
    if n <= 0 {
        Map::empty()
    } else {
        mappa(voci, n - 1).insert(voci[n - 1].codice@, voci[n - 1].giocatore@)
    }
}

/// No code occurs twice among the first `n` entries.
pub open spec fn codici_distinti(voci: Seq<Voce>, n: int) -> bool {
    forall|i: int, j: int| 0 <= i < j < n ==> voci[i].codice@ != voci[j].codice@
}

proof fn lemma_mappa_dominio(voci: Seq<Voce>, n: int, k: Seq<char>)
    requires
        0 <= n,
    ensures
        mappa(voci, n).dom().contains(k) <==> exists|i: int| 0 <= i < n && voci[i].codice@ == k,
    decreases n,
{
    if n > 0 {
        lemma_mappa_dominio(voci, n - 1, k);
        if mappa(voci, n).dom().contains(k) && voci[n - 1].codice@ != k {
            let i = choose|i: int| 0 <= i < n - 1 && voci[i].codice@ == k;
            assert(0 <= i < n && voci[i].codice@ == k);
        }
    }
}

proof fn lemma_mappa_valore(voci: Seq<Voce>, n: int, i: int)
    requires
        0 <= i < n,
        codici_distinti(voci, n),
    ensures
        mappa(voci, n).dom().contains(voci[i].codice@),
        mappa(voci, n)[voci[i].codice@] == voci[i].giocatore@,
    decreases n,
{
    if i < n - 1 {
        lemma_mappa_valore(voci, n - 1, i);
    }
}

proof fn lemma_mappa_valida(voci: Seq<Voce>, n: int)
    ensures
        club_valido(mappa(voci, n)),
    decreases n,
{
    if n > 0 {
        lemma_mappa_valida(voci, n - 1);
        let m = mappa(voci, n);
        let g = voci[n - 1].giocatore;
        assert(g.primo@.len() == 11 && g.secondo@.len() == 11 && g.terzo@.len() == 11 && g.quarto@.len() == 11);
        assert forall|x: Seq<char>| #[trigger] m.dom().contains(x) implies righe_valide(m[x]) by {
            if x != voci[n - 1].codice@ {
                assert(mappa(voci, n - 1).dom().contains(x));
            }
        }
    }
}

proof fn lemma_mappa_finita(voci: Seq<Voce>, n: int)
    requires
        0 <= n,
        codici_distinti(voci, n),
    ensures
        mappa(voci, n).dom().finite(),
        mappa(voci, n).dom().len() == n,
    decreases n,
{
    if n > 0 {
        lemma_mappa_finita(voci, n - 1);
        lemma_mappa_dominio(voci, n - 1, voci[n - 1].codice@);
    }
}

proof fn lemma_mappa_prefisso(v1: Seq<Voce>, v2: Seq<Voce>, n: int)
    requires
        forall|j: int| 0 <= j < n ==> v1[j] == v2[j],
    ensures
        mappa(v1, n) == mappa(v2, n),
    decreases n,
{
    if n > 0 {
        lemma_mappa_prefisso(v1, v2, n - 1);
    }
}

proof fn lemma_mappa_stessa_vista(v1: Seq<Voce>, v2: Seq<Voce>, n: int)
    requires
        forall|j: int| 0 <= j < n ==> v1[j].codice@ == v2[j].codice@ && v1[j].giocatore@ == v2[j].giocatore@,
    ensures
        mappa(v1, n) == mappa(v2, n),
    decreases n,
{
    if n > 0 {
        lemma_mappa_stessa_vista(v1, v2, n - 1);
    }
}

proof fn lemma_mappa_aggiorna(voci: Seq<Voce>, n: int, i: int, v: Voce)
    requires
        0 <= i < n,
        n <= voci.len(),
        codici_distinti(voci, n),
        v.codice@ == voci[i].codice@,
    ensures
        mappa(voci.update(i, v), n) == mappa(voci, n).insert(voci[i].codice@, v.giocatore@),
    decreases n,
{
    if i < n - 1 {
        lemma_mappa_aggiorna(voci, n - 1, i, v);
        assert(mappa(voci.update(i, v), n) =~= mappa(voci, n).insert(voci[i].codice@, v.giocatore@));
    } else {
        lemma_mappa_prefisso(voci.update(i, v), voci, n - 1);
        lemma_mappa_dominio(voci, n - 1, voci[i].codice@);
        assert(mappa(voci.update(i, v), n) =~= mappa(voci, n).insert(voci[i].codice@, v.giocatore@));
    }
}

/// The club with player `codice` added as a new player named `nome`,
/// unless it has that code already.
pub open spec fn con_giocatore(
    m: Map<Seq<char>, GiocatoreV>,
    codice: Seq<char>,
    nome: Seq<char>,
    socio: bool,
) -> Map<Seq<char>, GiocatoreV> {
    if m.dom().contains(codice) {
        m
    } else {
        m.insert(codice, nuovo_giocatore(nome, socio))
    }
}

/// Adding a player is idempotent, whatever name and membership the second
/// addition gives: the first one stands.
pub proof fn lemma_inserimento_idempotente(
    m: Map<Seq<char>, GiocatoreV>,
    codice: Seq<char>,
    nome: Seq<char>,
    socio: bool,
    altro_nome: Seq<char>,
    altro_socio: bool,
)
    ensures
        con_giocatore(con_giocatore(m, codice, nome, socio), codice, altro_nome, altro_socio) == con_giocatore(
            m,
            codice,
            nome,
            socio,
        ),
        con_giocatore(m, codice, nome, socio).dom().contains(codice),
{
}

/// Adding a player never changes another one, nor one already there.
pub proof fn lemma_inserimento_conserva(
    m: Map<Seq<char>, GiocatoreV>,
    codice: Seq<char>,
    nome: Seq<char>,
    socio: bool,
    k: Seq<char>,
)
    requires
        m.dom().contains(k),
    ensures
        con_giocatore(m, codice, nome, socio).dom().contains(k),
        con_giocatore(m, codice, nome, socio)[k] == m[k],
{
}

/// The club after player `k` took place `posizione` (0 for the first) in
/// a tournament of `partecipanti` pairs: the place is recorded, then one
/// more tournament played.
pub open spec fn dopo_piazzamento(
    m: Map<Seq<char>, GiocatoreV>,
    k: Seq<char>,
    posizione: int,
    partecipanti: int,
) -> Map<Seq<char>, GiocatoreV> {
    m.insert(k, ha_giocato(premiato(m[k], posizione, partecipanti)))
}

/// Recording that place panics nowhere: the player is in the club, the
/// place can be recorded and the count of tournaments is below `u32::MAX`.
pub open spec fn piazzamento_possibile(
    m: Map<Seq<char>, GiocatoreV>,
    k: Seq<char>,
    posizione: int,
    partecipanti: int,
) -> bool {
    &&& m.dom().contains(k)
    &&& premiabile(m[k], posizione, partecipanti)
    &&& m[k].giocati < u32::MAX
}

impl Circolo {
    #[verifier::type_invariant]
    spec fn ben_formato(self) -> bool {
        codici_distinti(self.voci@, self.voci.len() as int)
    }

    /// The players of the club, by code.
    pub closed spec fn giocatori(&self) -> Map<Seq<char>, GiocatoreV> {
        mappa(self.voci@, self.voci.len() as int)
    }

    /// The club is finite and each of its players has the eleven columns of
    /// counters of a [`Player`].
    pub proof fn lemma_valido(&self)
        ensures
            club_valido(self.giocatori()),
    {
        lemma_mappa_valida(self.voci@, self.voci.len() as int);
    }

    /// An empty club.
    pub fn new() -> (c: Self)
        ensures
            c.giocatori() == Map::<Seq<char>, GiocatoreV>::empty(),
    {
        Circolo { voci: Vec::new() }
    }

    /// The number of players.
    pub fn len(&self) -> (r: usize)
        ensures
            r == self.giocatori().len(),
            self.giocatori().dom().finite(),
    {
        proof {
            use_type_invariant(self);
            lemma_mappa_finita(self.voci@, self.voci.len() as int);
        }
        self.voci.len()
    }

    /// Where player `codice` stands, if in the club.
    fn posizione(&self, codice: &String) -> (r: Option<usize>)
        ensures
            r matches Some(i) ==> i < self.voci.len() && self.voci@[i as int].codice@ == codice@,
            r is None <==> !self.giocatori().dom().contains(codice@),
    {
        proof {
            use_type_invariant(self);
        }
        let mut i: usize = 0;
        while i < self.voci.len()
            invariant
                i <= self.voci.len(),
                forall|j: int| 0 <= j < i ==> self.voci@[j].codice@ != codice@,
            decreases self.voci.len() - i,
        {
            if self.voci[i].codice == *codice {
                proof {
                    lemma_mappa_dominio(self.voci@, self.voci.len() as int, codice@);
                }
                return Some(i);
            }
            i = i + 1;
        }
        proof {
            lemma_mappa_dominio(self.voci@, self.voci.len() as int, codice@);
        }
        None
    }

    /// Player `codice`, if in the club.
    pub fn get(&self, codice: &str) -> (r: Option<&Player>)
        ensures
            r matches Some(p) ==> self.giocatori().dom().contains(codice@) && p@ == self.giocatori()[codice@],
            r is None <==> !self.giocatori().dom().contains(codice@),
    {
        proof {
            use_type_invariant(self);
        }
        let c = String::from_str(codice);
        match self.posizione(&c) {
            Some(i) => {
                proof {
                    lemma_mappa_valore(self.voci@, self.voci.len() as int, i as int);
                }
                Some(&self.voci[i].giocatore)
            },
            None => None,
        }
    }

    /// Adds player `codice`, named `nome`, unless the club has it already;
    /// a player already there is left as it is.
    pub fn presente_o_inserisci(&mut self, codice: &str, nome: &str, socio: bool)
        ensures
            final(self).giocatori() == con_giocatore(old(self).giocatori(), codice@, nome@, socio),
    {
        proof {
            use_type_invariant(&*self);
        }
        let c = String::from_str(codice);
        match self.posizione(&c) {
            Some(_) => {},
            None => {
                let ghost vecchie = self.voci@;
                let ghost n = self.voci.len() as int;
                proof {
                    assert forall|j: int| 0 <= j < n implies vecchie[j].codice@ != codice@ by {
                        lemma_mappa_dominio(vecchie, n, codice@);
                    }
                }
                let p = Player::new(String::from_str(nome), socio);
                let mut voci = Vec::new();
                std::mem::swap(&mut voci, &mut self.voci);
                voci.push(Voce { codice: c, giocatore: p });
                proof {
                    lemma_mappa_prefisso(voci@, vecchie, n);
                }
                self.voci = voci;
            },
        }
    }

    /// Records that player `codice` took place `posizione` (0 for the
    /// first) in a tournament of `partecipanti` pairs and played it.
    pub fn registra_piazzamento(&mut self, codice: &str, posizione: usize, partecipanti: usize)
        requires
            piazzamento_possibile(old(self).giocatori(), codice@, posizione as int, partecipanti as int),
        ensures
            final(self).giocatori() == dopo_piazzamento(
                old(self).giocatori(),
                codice@,
                posizione as int,
                partecipanti as int,
            ),
    {
        proof {
            use_type_invariant(&*self);
        }
        let c = String::from_str(codice);
        let i = match self.posizione(&c) {
            Some(i) => i,
            None => { return; },
        };
        let ghost vecchie = self.voci@;
        let ghost n = self.voci.len() as int;
        proof {
            lemma_mappa_valore(vecchie, n, i as int);
        }
        let mut voci = Vec::new();
        std::mem::swap(&mut voci, &mut self.voci);
        let mut voce = voci.remove(i);
        voce.giocatore.premia(posizione, partecipanti);
        voce.giocatore.gioca();
        voci.insert(i, voce);
        proof {
            assert(voci@ =~= vecchie.update(i as int, voce));
            lemma_mappa_aggiorna(vecchie, n, i as int, voce);
            assert forall|a: int, b: int| 0 <= a < b < n implies voci@[a].codice@ != voci@[b].codice@ by {
            }
        }
        self.voci = voci;
    }

    /// The positions of the entries in the order of the report: each
    /// position once, and no entry before one that comes before it.
    fn ordine(&self) -> (idx: Vec<usize>)
        ensures
            idx.len() == self.voci.len(),
            forall|a: int| 0 <= a < idx.len() ==> idx[a] < self.voci.len(),
            forall|a: int, b: int| 0 <= a < b < idx.len() ==> idx[a] != idx[b],
            forall|a: int, b: int|
                0 <= a < b < idx.len() ==> !precede(
                    #[trigger] self.voci@[idx[b] as int].giocatore@,
                    #[trigger] self.voci@[idx[a] as int].giocatore@,
                ),
    {
        let n = self.voci.len();
        let mut idx: Vec<usize> = Vec::new();
        let mut k: usize = 0;
        while k < n
            invariant
                n == self.voci.len(),
                k <= n,
                idx.len() == k,
                forall|a: int| 0 <= a < idx.len() ==> idx[a] < k,
                forall|a: int, b: int| 0 <= a < b < idx.len() ==> idx[a] != idx[b],
                forall|a: int, b: int|
                    0 <= a < b < idx.len() ==> !precede(
                        #[trigger] self.voci@[idx[b] as int].giocatore@,
                        #[trigger] self.voci@[idx[a] as int].giocatore@,
                    ),
            decreases n - k,
        {
            let mut p: usize = 0;
            while p < idx.len() && !self.voci[k].giocatore.precede(&self.voci[idx[p]].giocatore)
                invariant
                    n == self.voci.len(),
                    k < n,
                    p <= idx.len(),
                    forall|a: int| 0 <= a < idx.len() ==> idx[a] < k,
                    forall|a: int|
                        0 <= a < p ==> !precede(
                            self.voci@[k as int].giocatore@,
                            #[trigger] self.voci@[idx[a] as int].giocatore@,
                        ),
                decreases idx.len() - p,
            {
                p = p + 1;
            }
            let ghost vecchio = idx@;
            idx.insert(p, k);
            proof {
                let v = self.voci@;
                let x = v[k as int].giocatore@;
                assert forall|a: int, b: int| 0 <= a < b < idx.len() implies !precede(
                    #[trigger] v[idx[b] as int].giocatore@,
                    #[trigger] v[idx[a] as int].giocatore@,
                ) by {
                    if b == p {
                        assert(idx[a] == vecchio[a]);
                    } else if a == p {
                        assert(idx[b] == vecchio[b - 1]);
                        if p < vecchio.len() {
                            let y = v[vecchio[p as int] as int].giocatore@;
                            let z = v[vecchio[b - 1] as int].giocatore@;
                            assert(precede(x, y));
                            if b - 1 > p {
                                assert(!precede(z, y));
                            }
                            crate::ordine::lemma_precede_ordine_stretto(z, x, y);
                        }
                    } else if b < p {
                        assert(idx[a] == vecchio[a] && idx[b] == vecchio[b]);
                    } else if a < p {
                        assert(idx[a] == vecchio[a] && idx[b] == vecchio[b - 1]);
                    } else {
                        assert(idx[a] == vecchio[a - 1] && idx[b] == vecchio[b - 1]);
                    }
                }
            }
            k = k + 1;
        }
        idx
    }

    /// The players in the order of the report: members of the club first,
    /// then by name. Each player of the club appears once.
    pub fn giocatori_ordinati(&self) -> (r: Vec<&Player>)
        ensures
            r.len() == self.giocatori().len(),
            exists|chiavi: Seq<Seq<char>>| {
                &&& chiavi.len() == r.len()
                &&& forall|a: int, b: int| 0 <= a < b < chiavi.len() ==> chiavi[a] != chiavi[b]
                &&& forall|a: int|
                    0 <= a < chiavi.len() ==> {
                        &&& self.giocatori().dom().contains(#[trigger] chiavi[a])
                        &&& r[a]@ == self.giocatori()[chiavi[a]]
                    }
            },
            forall|a: int, b: int| 0 <= a < b < r.len() ==> !precede(#[trigger] r[b]@, #[trigger] r[a]@),
    {
        proof {
            use_type_invariant(self);
            lemma_mappa_finita(self.voci@, self.voci.len() as int);
        }
        let idx = self.ordine();
        let mut r: Vec<&Player> = Vec::new();
        let mut j: usize = 0;
        while j < idx.len()
            invariant
                j <= idx.len(),
                idx.len() == self.voci.len(),
                forall|a: int| 0 <= a < idx.len() ==> idx[a] < self.voci.len(),
                r.len() == j,
                forall|a: int| 0 <= a < j ==> r[a] == &self.voci@[idx[a] as int].giocatore,
            decreases idx.len() - j,
        {
            r.push(&self.voci[idx[j]].giocatore);
            j = j + 1;
        }
        let ghost chiavi = Seq::new(idx.len() as nat, |a: int| self.voci@[idx[a] as int].codice@);
        proof {
            let n = self.voci.len() as int;
            assert forall|a: int| 0 <= a < chiavi.len() implies {
                &&& self.giocatori().dom().contains(#[trigger] chiavi[a])
                &&& r[a]@ == self.giocatori()[chiavi[a]]
            } by {
                lemma_mappa_valore(self.voci@, n, idx[a] as int);
            }
            assert forall|a: int, b: int| 0 <= a < b < chiavi.len() implies chiavi[a] != chiavi[b] by {
                assert(codici_distinti(self.voci@, n));
            }
        }
        r
    }

    /// A copy of the club.
    pub fn copia(&self) -> (r: Circolo)
        ensures
            r.giocatori() == self.giocatori(),
    {
        proof {
            use_type_invariant(self);
        }
        let mut voci: Vec<Voce> = Vec::new();
        let mut i: usize = 0;
        while i < self.voci.len()
            invariant
                i <= self.voci.len(),
                voci.len() == i,
                forall|j: int| 0 <= j < i ==> voci@[j].codice@ == self.voci@[j].codice@,
                forall|j: int| 0 <= j < i ==> voci@[j].giocatore@ == self.voci@[j].giocatore@,
            decreases self.voci.len() - i,
        {
            voci.push(Voce { codice: self.voci[i].codice.clone(), giocatore: self.voci[i].giocatore.copia() });
            i = i + 1;
        }
        proof {
            lemma_mappa_stessa_vista(voci@, self.voci@, i as int);
        }
        Circolo { voci }
    }

    /// Whether player `codice` can take place `posizione` among
    /// `partecipanti` pairs without a panic.
    pub fn piazzamento_ammesso(&self, codice: &str, posizione: usize, partecipanti: usize) -> (r: bool)
        ensures
            r == piazzamento_possibile(self.giocatori(), codice@, posizione as int, partecipanti as int),
    {
        match self.get(codice) {
            Some(p) => p.piazzamento_ammesso(posizione, partecipanti),
            None => false,
        }
    }
}

} // verus!
