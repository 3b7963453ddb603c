//! A player of the club and the prizes won, counted per place and per
//! number of pairs in the tournament.

use vstd::prelude::*;
use crate::testo::{aggiungi_carattere, aggiungi_numerale, caratteri, numerale};

verus! {

/// What the report knows of a player.
///
/// `primo`, `secondo`, `terzo` and `quarto` count the first, second,
/// third and fourth places; column `i` of each stands for tournaments
/// of `i + 6` pairs.
pub struct Player {
    pub nome: String,
    pub primo: [u32; 11],
    pub secondo: [u32; 11],
    pub terzo: [u32; 11],
    pub quarto: [u32; 11],
    pub socio: bool,
    pub giocati: u32,
}

/// The mathematical value of a [`Player`].
pub struct GiocatoreV {
    pub nome: Seq<char>,
    pub primo: Seq<u32>,
    pub secondo: Seq<u32>,
    pub terzo: Seq<u32>,
    pub quarto: Seq<u32>,
    pub socio: bool,
    pub giocati: u32,
}

impl View for Player {
    type V = GiocatoreV;

    open spec fn view(&self) -> GiocatoreV {
        GiocatoreV {
            nome: self.nome@,
            primo: self.primo@,
            secondo: self.secondo@,
            terzo: self.terzo@,
            quarto: self.quarto@,
            socio: self.socio,
            giocati: self.giocati,
        }
    }
}

/// Eleven zero counters.
pub open spec fn zeri() -> Seq<u32> {
    Seq::new(11, |i: int| 0u32)
}

/// A player who has played nothing yet.
pub open spec fn nuovo_giocatore(nome: Seq<char>, socio: bool) -> GiocatoreV {
    GiocatoreV {
        nome,
        primo: zeri(),
        secondo: zeri(),
        terzo: zeri(),
        quarto: zeri(),
        socio,
        giocati: 0,
    }
}

/// The prize, in euros, for place `riga` (0 for the first) in a
/// tournament of `colonna + 6` pairs.
pub open spec fn premio(riga: int, colonna: int) -> int {
    if riga == 0 {
        if colonna < 4 { 5 } else if colonna < 9 { 10 } else { 15 }
    } else if riga == 1 {
        if colonna < 5 { 0 } else { 5 }
    } else if riga == 2 {
        if colonna < 7 { 0 } else { 5 }
    } else {
        0
    }
}

/// The prize money of the first `k` columns of one row of counters; a
/// counter is read modulo 256.
pub open spec fn somma_premi(conteggi: Seq<u32>, riga: int, k: int) -> int
    decreases k,
{
    if k <= 0 {
        0
    } else {
        somma_premi(conteggi, riga, k - 1) + (conteggi[k - 1] % 256) * premio(riga, k - 1)
    }
}

/// All the prize money won by a player.
pub open spec fn totale_premi(p: GiocatoreV) -> int {
    somma_premi(p.primo, 0, 11) + somma_premi(p.secondo, 1, 11)
        + somma_premi(p.terzo, 2, 11) + somma_premi(p.quarto, 3, 11)
}

/// The sum of the first `k` counters.
pub open spec fn somma(s: Seq<u32>, k: int) -> int
    decreases k,
{
    if k <= 0 {
        0
    } else {
        somma(s, k - 1) + s[k - 1]
    }
}

/// The counters after a place: place `posizione` (0 for the first) in a
/// tournament of `partecipanti` pairs; places after the fourth change
/// nothing.
pub open spec fn premiato(p: GiocatoreV, posizione: int, partecipanti: int) -> GiocatoreV {
    let c = partecipanti - 6;
    if posizione == 0 {
        GiocatoreV { primo: p.primo.update(c, (p.primo[c] + 1) as u32), ..p }
    } else if posizione == 1 {
        GiocatoreV { secondo: p.secondo.update(c, (p.secondo[c] + 1) as u32), ..p }
    } else if posizione == 2 {
        GiocatoreV { terzo: p.terzo.update(c, (p.terzo[c] + 1) as u32), ..p }
    } else if posizione == 3 {
        GiocatoreV { quarto: p.quarto.update(c, (p.quarto[c] + 1) as u32), ..p }
    } else {
        p
    }
}

/// The counter that a place increments, when it increments one.
pub open spec fn contatore(p: GiocatoreV, posizione: int, partecipanti: int) -> int {
    let c = partecipanti - 6;
    if posizione == 0 { p.primo[c] as int }
    else if posizione == 1 { p.secondo[c] as int }
    else if posizione == 2 { p.terzo[c] as int }
    else { p.quarto[c] as int }
}

/// A place can be recorded without a panic: the first four places need a
/// tournament of 6 to 16 pairs and a counter below `u32::MAX`.
pub open spec fn premiabile(p: GiocatoreV, posizione: int, partecipanti: int) -> bool {
    0 <= posizione <= 3 ==> {
        &&& 6 <= partecipanti <= 16
        &&& contatore(p, posizione, partecipanti) < u32::MAX
    }
}

/// The counters after one more tournament played.
pub open spec fn ha_giocato(p: GiocatoreV) -> GiocatoreV {
    GiocatoreV { giocati: (p.giocati + 1) as u32, ..p }
}

proof fn lemma_somma_premi_aggiorna(s: Seq<u32>, riga: int, c: int, v: u32, k: int)
    requires
        0 <= c < s.len(),
        0 <= k <= s.len(),
    ensures
        somma_premi(s.update(c, v), riga, k) == somma_premi(s, riga, k) + (if c < k {
            (v % 256 - s[c] % 256) * premio(riga, c)
        } else {
            0
        }),
    decreases k,
{
    if k > 0 {
        lemma_somma_premi_aggiorna(s, riga, c, v, k - 1);
        if c == k - 1 {
            let a = v % 256;
            let b = s[c] % 256;
            let q = premio(riga, c);
            assert(a * q == b * q + (a - b) * q) by (nonlinear_arith);
        }
    }
}

/// Recording one of the first four places adds the prize of that place for
/// the tournament's number of pairs to the player's prize money, as long
/// as the counter, which the prize money reads modulo 256, does not wrap.
pub proof fn lemma_premio_di_un_piazzamento(p: GiocatoreV, posizione: int, partecipanti: int)
    requires
        p.primo.len() == 11,
        p.secondo.len() == 11,
        p.terzo.len() == 11,
        p.quarto.len() == 11,
        0 <= posizione <= 3,
        premiabile(p, posizione, partecipanti),
        contatore(p, posizione, partecipanti) % 256 < 255,
    ensures
        totale_premi(premiato(p, posizione, partecipanti)) == totale_premi(p) + premio(
            posizione,
            partecipanti - 6,
        ),
{
    let c = partecipanti - 6;
    let v = (contatore(p, posizione, partecipanti) + 1) as u32;
    let d = v % 256 - contatore(p, posizione, partecipanti) % 256;
    assert(d == 1);
    let q = premio(posizione, c);
    assert(d * q == q) by (nonlinear_arith)
        requires
            d == 1,
    ;
    if posizione == 0 {
        lemma_somma_premi_aggiorna(p.primo, 0, c, v, 11);
    } else if posizione == 1 {
        lemma_somma_premi_aggiorna(p.secondo, 1, c, v, 11);
    } else if posizione == 2 {
        lemma_somma_premi_aggiorna(p.terzo, 2, c, v, 11);
    } else {
        lemma_somma_premi_aggiorna(p.quarto, 3, c, v, 11);
    }
}

/// Player `p` with counter `colonna` of row `riga` (0 for first places)
/// set to `v`.
pub open spec fn con_contatore(p: GiocatoreV, riga: int, colonna: int, v: u32) -> GiocatoreV {
    if riga == 0 {
        GiocatoreV { primo: p.primo.update(colonna, v), ..p }
    } else if riga == 1 {
        GiocatoreV { secondo: p.secondo.update(colonna, v), ..p }
    } else if riga == 2 {
        GiocatoreV { terzo: p.terzo.update(colonna, v), ..p }
    } else {
        GiocatoreV { quarto: p.quarto.update(colonna, v), ..p }
    }
}

/// Counter `colonna` of row `riga`.
pub open spec fn valore_contatore(p: GiocatoreV, riga: int, colonna: int) -> u32 {
    if riga == 0 {
        p.primo[colonna]
    } else if riga == 1 {
        p.secondo[colonna]
    } else if riga == 2 {
        p.terzo[colonna]
    } else {
        p.quarto[colonna]
    }
}

/// Prize money never falls when one counter grows within 255: it grows by
/// the counter's increase times the prize of its place and column, so it
/// stays the same exactly when that prize is 0.
pub proof fn lemma_premi_crescono(p: GiocatoreV, riga: int, colonna: int, v: u32)
    requires
        p.primo.len() == 11,
        p.secondo.len() == 11,
        p.terzo.len() == 11,
        p.quarto.len() == 11,
        0 <= riga <= 3,
        0 <= colonna < 11,
        valore_contatore(p, riga, colonna) < v <= 255,
    ensures
        totale_premi(con_contatore(p, riga, colonna, v)) == totale_premi(p) + (v - valore_contatore(
            p,
            riga,
            colonna,
        )) * premio(riga, colonna),
        totale_premi(p) <= totale_premi(con_contatore(p, riga, colonna, v)),
        totale_premi(p) == totale_premi(con_contatore(p, riga, colonna, v)) <==> premio(riga, colonna) == 0,
{
    let x = valore_contatore(p, riga, colonna);
    assert(x % 256 == x && v % 256 == v);
    if riga == 0 {
        lemma_somma_premi_aggiorna(p.primo, 0, colonna, v, 11);
    } else if riga == 1 {
        lemma_somma_premi_aggiorna(p.secondo, 1, colonna, v, 11);
    } else if riga == 2 {
        lemma_somma_premi_aggiorna(p.terzo, 2, colonna, v, 11);
    } else {
        lemma_somma_premi_aggiorna(p.quarto, 3, colonna, v, 11);
    }
    let d = v - x;
    let q = premio(riga, colonna);
    assert(d * q >= 0 && (d * q == 0 <==> q == 0)) by (nonlinear_arith)
        requires
            d > 0,
            q >= 0,
    ;
}

proof fn lemma_zeri_senza_premi(riga: int, k: int)
    requires
        0 <= k <= 11,
    ensures
        somma_premi(zeri(), riga, k) == 0,
    decreases k,
{
    if k > 0 {
        lemma_zeri_senza_premi(riga, k - 1);
    }
}

/// What one place alone earns in a tournament of `partecipanti` pairs
/// (6 to 16): the first place 5 euros up to 9 pairs, 10 euros from 10 to
/// 14 pairs and 15 euros from 15 pairs on; the second place 5 euros from
/// 11 pairs on; the third 5 euros from 13 pairs on; the fourth nothing.
pub proof fn lemma_premio_di_un_solo_piazzamento(nome: Seq<char>, socio: bool, posizione: int, partecipanti: int)
    requires
        0 <= posizione <= 3,
        6 <= partecipanti <= 16,
    ensures
        totale_premi(premiato(nuovo_giocatore(nome, socio), posizione, partecipanti)) == (if posizione == 0 {
            if partecipanti <= 9 {
                5int
            } else if partecipanti <= 14 {
                10
            } else {
                15
            }
        } else if posizione == 1 {
            if partecipanti >= 11 {
                5int
            } else {
                0
            }
        } else if posizione == 2 {
            if partecipanti >= 13 {
                5int
            } else {
                0
            }
        } else {
            0
        }),
{
    let p = nuovo_giocatore(nome, socio);
    lemma_zeri_senza_premi(0, 11);
    lemma_zeri_senza_premi(1, 11);
    lemma_zeri_senza_premi(2, 11);
    lemma_zeri_senza_premi(3, 11);
    assert(totale_premi(p) == 0);
    lemma_premio_di_un_piazzamento(p, posizione, partecipanti);
}

/// Places after the fourth change nothing.
pub proof fn lemma_oltre_il_quarto(p: GiocatoreV, posizione: int, partecipanti: int)
    requires
        posizione < 0 || posizione > 3,
    ensures
        premiato(p, posizione, partecipanti) == p,
{
}

/// The prize of place `riga` for tournaments of `colonna + 6` pairs.
pub fn premio_exec(riga: usize, colonna: usize) -> (r: u32)
    ensures
        r == premio(riga as int, colonna as int),
{
    if riga == 0 {
        if colonna < 4 { 5 } else if colonna < 9 { 10 } else { 15 }
    } else if riga == 1 {
        if colonna < 5 { 0 } else { 5 }
    } else if riga == 2 {
        if colonna < 7 { 0 } else { 5 }
    } else {
        0
    }
}

/// The prize money of a row of counters is between 0 and 255 times the
/// highest prize for each column.
pub proof fn lemma_somma_premi_limitata(conteggi: Seq<u32>, riga: int, k: int)
    requires
        0 <= k <= 11,
    ensures
        0 <= somma_premi(conteggi, riga, k) <= k * 255 * 15,
    decreases k,
{
    if k > 0 {
        lemma_somma_premi_limitata(conteggi, riga, k - 1);
        assert((conteggi[k - 1] % 256) * premio(riga, k - 1) <= 255 * 15) by (nonlinear_arith)
            requires
                0 <= conteggi[k - 1] % 256 <= 255,
                0 <= premio(riga, k - 1) <= 15;
        assert(0 <= (conteggi[k - 1] % 256) * premio(riga, k - 1)) by (nonlinear_arith)
            requires
                0 <= conteggi[k - 1] % 256 <= 255,
                0 <= premio(riga, k - 1) <= 15;
    }
}

fn premi_riga(conteggi: &[u32; 11], riga: usize) -> (r: u32)
    ensures
        r == somma_premi(conteggi@, riga as int, 11),
{
    let mut acc: u32 = 0;
    let mut i: usize = 0;
    while i < 11
        invariant
            i <= 11,
            acc == somma_premi(conteggi@, riga as int, i as int),
        decreases 11 - i,
    {
        proof {
            lemma_somma_premi_limitata(conteggi@, riga as int, i as int + 1);
        }
        let n: u32 = conteggi[i] % 256;
        acc = acc + n * premio_exec(riga, i);
        i = i + 1;
    }
    acc
}

fn somma_contatori(conteggi: &[u32; 11]) -> (r: u32)
    requires
        somma(conteggi@, 11) <= u32::MAX,
    ensures
        r == somma(conteggi@, 11),
{
    let mut acc: u32 = 0;
    let mut i: usize = 0;
    while i < 11
        invariant
            i <= 11,
            acc == somma(conteggi@, i as int),
            somma(conteggi@, 11) <= u32::MAX,
        decreases 11 - i,
    {
        proof {
            lemma_somma_monotona(conteggi@, i as int + 1, 11);
        }
        acc = acc + conteggi[i];
        i = i + 1;
    }
    acc
}

fn somma_larga(conteggi: &[u32; 11]) -> (r: u64)
    ensures
        r == somma(conteggi@, 11),
{
    let mut acc: u64 = 0;
    let mut i: usize = 0;
    while i < 11
        invariant
            i <= 11,
            acc == somma(conteggi@, i as int),
            acc <= i * 4294967295,
        decreases 11 - i,
    {
        acc = acc + conteggi[i] as u64;
        i = i + 1;
    }
    acc
}

proof fn lemma_somma_monotona(s: Seq<u32>, i: int, j: int)
    requires
        0 <= i <= j,
    ensures
        somma(s, i) <= somma(s, j),
    decreases j - i,
{
    if i < j {
        lemma_somma_monotona(s, i, j - 1);
    }
}

impl Player {
    /// A player with the given name and membership, with no place and no
    /// tournament yet.
    pub fn new(nome: String, socio: bool) -> (p: Self)
        ensures
            p@ == nuovo_giocatore(nome@, socio),
    {
        let p = Player {
            nome,
            primo: [0; 11],
            secondo: [0; 11],
            terzo: [0; 11],
            quarto: [0; 11],
            socio,
            giocati: 0,
        };
        assert(p.primo@ =~= zeri());
        assert(p.secondo@ =~= zeri());
        assert(p.terzo@ =~= zeri());
        assert(p.quarto@ =~= zeri());
        p
    }

    /// All the prize money won, in euros.
    pub fn tot_premi(&self) -> (r: u32)
        ensures
            r == totale_premi(self@),
    {
        proof {
            lemma_somma_premi_limitata(self.primo@, 0, 11);
            lemma_somma_premi_limitata(self.secondo@, 1, 11);
            lemma_somma_premi_limitata(self.terzo@, 2, 11);
            lemma_somma_premi_limitata(self.quarto@, 3, 11);
        }
        premi_riga(&self.primo, 0) + premi_riga(&self.secondo, 1) + premi_riga(&self.terzo, 2)
            + premi_riga(&self.quarto, 3)
    }

    /// Records place `posizione` (0 for the first) in a tournament of
    /// `partecipanti` pairs.
    pub fn premia(&mut self, posizione: usize, partecipanti: usize)
        requires
            premiabile(old(self)@, posizione as int, partecipanti as int),
        ensures
            final(self)@ == premiato(old(self)@, posizione as int, partecipanti as int),
    {
        if posizione == 0 {
            let c = partecipanti - 6;
            self.primo[c] = self.primo[c] + 1;
        } else if posizione == 1 {
            let c = partecipanti - 6;
            self.secondo[c] = self.secondo[c] + 1;
        } else if posizione == 2 {
            let c = partecipanti - 6;
            self.terzo[c] = self.terzo[c] + 1;
        } else if posizione == 3 {
            let c = partecipanti - 6;
            self.quarto[c] = self.quarto[c] + 1;
        }
    }

    /// Counts one more tournament played.
    pub fn gioca(&mut self)
        requires
            old(self).giocati < u32::MAX,
        ensures
            final(self)@ == ha_giocato(old(self)@),
    {
        self.giocati = self.giocati + 1;
    }

    /// A copy of this player.
    pub fn copia(&self) -> (r: Player)
        ensures
            r@ == self@,
    {
        Player {
            nome: self.nome.clone(),
            primo: self.primo,
            secondo: self.secondo,
            terzo: self.terzo,
            quarto: self.quarto,
            socio: self.socio,
            giocati: self.giocati,
        }
    }

    /// Whether place `posizione` among `partecipanti` pairs can be
    /// recorded and counted as played without a panic.
    pub fn piazzamento_ammesso(&self, posizione: usize, partecipanti: usize) -> (r: bool)
        ensures
            r == (premiabile(self@, posizione as int, partecipanti as int) && self.giocati < u32::MAX),
    {
        if self.giocati == u32::MAX {
            return false;
        }
        if posizione > 3 {
            return true;
        }
        if partecipanti < 6 || partecipanti > 16 {
            return false;
        }
        let c = partecipanti - 6;
        let v = if posizione == 0 {
            self.primo[c]
        } else if posizione == 1 {
            self.secondo[c]
        } else if posizione == 2 {
            self.terzo[c]
        } else {
            self.quarto[c]
        };
        v < u32::MAX
    }

    /// The player's name.
    pub fn nome(&self) -> (r: &str)
        ensures
            r@ == self.nome@,
    {
        self.nome.as_str()
    }
}

/// `", "`, the field separator of a record.
pub open spec fn separatore() -> Seq<char> {
    seq![',', ' ']
}

/// `"Yes"` for a member of the club, `"No"` otherwise.
pub open spec fn testo_socio(socio: bool) -> Seq<char> {
    if socio { seq!['Y', 'e', 's'] } else { seq!['N', 'o'] }
}

/// The counters of a player add up within `u32`.
pub open spec fn somme_rappresentabili(p: GiocatoreV) -> bool {
    &&& somma(p.primo, 11) <= u32::MAX
    &&& somma(p.secondo, 11) <= u32::MAX
    &&& somma(p.terzo, 11) <= u32::MAX
    &&& somma(p.quarto, 11) <= u32::MAX
}

/// One line of the report: name, membership, places of each kind,
/// tournaments played, prize money and the expected value text `ev`,
/// separated by `", "`.
pub open spec fn testo_record(p: GiocatoreV, ev: Seq<char>) -> Seq<char> {
    p.nome + separatore() + testo_socio(p.socio)
        + separatore() + numerale(somma(p.primo, 11) as nat)
        + separatore() + numerale(somma(p.secondo, 11) as nat)
        + separatore() + numerale(somma(p.terzo, 11) as nat)
        + separatore() + numerale(somma(p.quarto, 11) as nat)
        + separatore() + numerale(p.giocati as nat)
        + separatore() + numerale(totale_premi(p) as nat)
        + separatore() + ev
}

fn aggiungi_testo(s: &mut String, t: &str)
    ensures
        final(s)@ == old(s)@ + t@,
{
    let v = caratteri(t);
    let mut i: usize = 0;
    while i < v.len()
        invariant
            i <= v.len(),
            v@ == t@,
            s@ == old(s)@ + t@.subrange(0, i as int),
        decreases v.len() - i,
    {
        aggiungi_carattere(s, v[i]);
        proof {
            assert(t@.subrange(0, i as int + 1) =~= t@.subrange(0, i as int).push(t@[i as int]));
        }
        i = i + 1;
    }
    assert(t@.subrange(0, t@.len() as int) =~= t@);
}

fn aggiungi_separatore(s: &mut String)
    ensures
        final(s)@ == old(s)@ + separatore(),
{
    aggiungi_carattere(s, ',');
    aggiungi_carattere(s, ' ');
    assert(s@ =~= old(s)@ + separatore());
}

impl Player {
    /// The player's line of the report, with `ev` as its last field: the
    /// expected value per tournament, which the caller writes with two
    /// decimals from [`Player::valore_atteso`].
    pub fn as_record(&self, ev: &str) -> (r: String)
        requires
            somme_rappresentabili(self@),
        ensures
            r@ == testo_record(self@, ev@),
    {
        let mut s = String::new();
        aggiungi_testo(&mut s, self.nome.as_str());
        aggiungi_separatore(&mut s);
        if self.socio {
            aggiungi_carattere(&mut s, 'Y');
            aggiungi_carattere(&mut s, 'e');
            aggiungi_carattere(&mut s, 's');
        } else {
            aggiungi_carattere(&mut s, 'N');
            aggiungi_carattere(&mut s, 'o');
        }
        assert(s@ =~= self.nome@ + separatore() + testo_socio(self.socio));
        aggiungi_separatore(&mut s);
        aggiungi_numerale(&mut s, somma_contatori(&self.primo));
        aggiungi_separatore(&mut s);
        aggiungi_numerale(&mut s, somma_contatori(&self.secondo));
        aggiungi_separatore(&mut s);
        aggiungi_numerale(&mut s, somma_contatori(&self.terzo));
        aggiungi_separatore(&mut s);
        aggiungi_numerale(&mut s, somma_contatori(&self.quarto));
        aggiungi_separatore(&mut s);
        aggiungi_numerale(&mut s, self.giocati);
        aggiungi_separatore(&mut s);
        aggiungi_numerale(&mut s, self.tot_premi());
        aggiungi_separatore(&mut s);
        aggiungi_testo(&mut s, ev);
        s
    }

    /// The expected value per tournament as a fraction: prize money less
    /// 5 euros for each tournament played, over the tournaments played.
    pub fn valore_atteso(&self) -> (r: (i64, u32))
        ensures
            r.0 == totale_premi(self@) - 5 * self.giocati,
            r.1 == self.giocati,
    {
        let premi = self.tot_premi();
        (premi as i64 - 5 * (self.giocati as i64), self.giocati)
    }

    /// `"Yes"` for a member of the club, `"No"` otherwise.
    pub fn socio_testo(&self) -> (r: &'static str)
        ensures
            r@ == testo_socio(self.socio),
    {
        proof {
            reveal_strlit("Yes");
            reveal_strlit("No");
        }
        if self.socio { "Yes" } else { "No" }
    }

    /// Whether each row of counters adds up within `u32`, which
    /// [`Player::as_record`] and [`Player::piazzamenti`] need.
    pub fn somme_contabili(&self) -> (r: bool)
        ensures
            r == somme_rappresentabili(self@),
    {
        somma_larga(&self.primo) <= 4294967295 && somma_larga(&self.secondo) <= 4294967295
            && somma_larga(&self.terzo) <= 4294967295 && somma_larga(&self.quarto) <= 4294967295
    }

    /// The sums of the four rows of counters, in the order first, second,
    /// third, fourth.
    pub fn piazzamenti(&self) -> (r: (u32, u32, u32, u32))
        requires
            somme_rappresentabili(self@),
        ensures
            r.0 == somma(self.primo@, 11),
            r.1 == somma(self.secondo@, 11),
            r.2 == somma(self.terzo@, 11),
            r.3 == somma(self.quarto@, 11),
    {
        (somma_contatori(&self.primo), somma_contatori(&self.secondo), somma_contatori(&self.terzo),
            somma_contatori(&self.quarto))
    }
}

} // verus!
