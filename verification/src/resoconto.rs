//! The report over a period: which rows of the tournament list it takes,
//! what it reads of each tournament's ranking, and its totals.

use vstd::prelude::*;
use crate::circolo::{Circolo, con_giocatore};
use crate::data::{Data, data_da_testo, data_valida, numero_data, parse_date, prima, lemma_prima_come_numero};
use crate::giocatore::{GiocatoreV, Player, nuovo_giocatore, totale_premi};
use crate::intervallo::Intervallo;
use crate::pagina::{RigaTorneo, RigaV, testo_opzionale};
use crate::testo::{caratteri, da_caratteri, pulisci, senza_spazi, uguali};
use crate::torneo::{Tournament, premiazione, premiazione_possibile, occorrenze, lemma_premiazione_conserva_e_conta};

verus! {

/// Why the report cannot be made: what a page lacks, or a count that
/// overflows.
#[derive(PartialEq, Eq, Structural, Clone, Copy, Debug)]
pub enum ErroreReport {
    /// A row of the tournament list has fewer than four text nodes.
    RigaSenzaCodice,
    /// A row of the tournament list has no link.
    RigaSenzaLink,
    /// A tournament's link holds no `b` element.
    RigaSenzaData,
    /// A tournament's date cannot be read or is no day of the year.
    DataNonValida,
    /// The link of a tournament in the period has no address.
    LinkSenzaIndirizzo,
    /// A player cell of a ranking has no text.
    CellaSenzaTesto,
    /// A row of a ranking has fewer than six player cells.
    CoppiaIncompleta,
    /// The places of a tournament cannot be given: between one and five
    /// pairs, more than sixteen, or a counter at its limit.
    PremiazioneImpossibile,
    /// More tournaments than an `i32` counts.
    TroppiTornei,
    /// More pairs than an `i32` counts.
    TroppeCoppie,
}

/// What to do with a row of the tournament list.
pub enum Passo {
    /// The tournament is older than the period: the list goes on with
    /// older ones only, so the report is complete.
    Interrompi,
    /// The tournament is after the period.
    Salta,
    /// The tournament is in the period: its code and the address of its
    /// ranking.
    Scarica(String, String),
}

/// The value of a [`Passo`].
pub enum PassoV {
    Interrompi,
    Salta,
    Scarica(Seq<char>, Seq<char>),
}

impl View for Passo {
    type V = PassoV;

    open spec fn view(&self) -> PassoV {
        match self {
            Passo::Interrompi => PassoV::Interrompi,
            Passo::Salta => PassoV::Salta,
            Passo::Scarica(c, l) => PassoV::Scarica(c@, l@),
        }
    }
}

/// What to do with row `riga`, dated in year `anno`, for the period from
/// `inizio` to `fine`; an error where the row lacks what is read of it.
pub open spec fn esito_riga(riga: RigaV, inizio: (i32, u32, u32), fine: (i32, u32, u32), anno: i32) -> Result<
    PassoV,
    ErroreReport,
> {
    match riga.codice {
        None => Err(ErroreReport::RigaSenzaCodice),
        Some(codice) => match riga.collegamento {
            None => Err(ErroreReport::RigaSenzaLink),
            Some((data, indirizzo)) => match data {
                None => Err(ErroreReport::RigaSenzaData),
                Some(testo) => match data_da_testo(testo, anno) {
                    None => Err(ErroreReport::DataNonValida),
                    Some(giorno) => if prima(giorno, inizio) {
                        Ok(PassoV::Interrompi)
                    } else if prima(fine, giorno) {
                        Ok(PassoV::Salta)
                    } else {
                        match indirizzo {
                            None => Err(ErroreReport::LinkSenzaIndirizzo),
                            Some(l) => Ok(PassoV::Scarica(codice, l)),
                        }
                    },
                },
            },
        },
    }
}

/// A row whose code, link, date and address are all there: a tournament
/// dated before the period stops the report, one dated after it is
/// skipped, and one within it is downloaded from its address, as told by
/// the dates' numbers YYYYMMDD.
pub proof fn lemma_esito_di_una_riga(
    codice: Seq<char>,
    testo: Seq<char>,
    indirizzo: Seq<char>,
    inizio: (i32, u32, u32),
    fine: (i32, u32, u32),
    anno: i32,
)
    requires
        data_da_testo(testo, anno) is Some,
        data_valida(inizio.0 as int, inizio.1 as int, inizio.2 as int),
        data_valida(fine.0 as int, fine.1 as int, fine.2 as int),
    ensures
        ({
            let riga = RigaV { codice: Some(codice), collegamento: Some((Some(testo), Some(indirizzo))) };
            let giorno = data_da_testo(testo, anno)->0;
            let esito = esito_riga(riga, inizio, fine, anno);
            &&& (esito == Ok::<PassoV, ErroreReport>(PassoV::Interrompi)) <==> numero_data(giorno) < numero_data(
                inizio,
            )
            &&& (esito == Ok::<PassoV, ErroreReport>(PassoV::Salta)) <==> (numero_data(inizio) <= numero_data(
                giorno,
            ) && numero_data(fine) < numero_data(giorno))
            &&& (esito == Ok::<PassoV, ErroreReport>(PassoV::Scarica(codice, indirizzo))) <==> (numero_data(
                inizio,
            ) <= numero_data(giorno) <= numero_data(fine))
        }),
{
    let giorno = data_da_testo(testo, anno)->0;
    assert(data_valida(giorno.0 as int, giorno.1 as int, giorno.2 as int));
    lemma_prima_come_numero(giorno, inizio);
    lemma_prima_come_numero(fine, giorno);
}

/// The view of a step's outcome.
pub open spec fn esito_v(r: Result<Passo, ErroreReport>) -> Result<PassoV, ErroreReport> {
    match r {
        Ok(p) => Ok(p@),
        Err(e) => Err(e),
    }
}

fn copia_testo(t: &String) -> (r: String)
    ensures
        r@ == t@,
{
    t.clone()
}

/// What to do with row `riga` of the tournament list, its date taken in
/// year `anno`.
pub fn valuta_riga(riga: &RigaTorneo, intervallo: &Intervallo, anno: i32) -> (r: Result<Passo, ErroreReport>)
    ensures
        esito_v(r) == esito_riga(riga@, intervallo.inizio(), intervallo.fine(), anno),
{
    let codice = match &riga.codice {
        None => { return Err(ErroreReport::RigaSenzaCodice); },
        Some(c) => c,
    };
    let collegamento = match &riga.collegamento {
        None => { return Err(ErroreReport::RigaSenzaLink); },
        Some(c) => c,
    };
    let testo = match &collegamento.data {
        None => { return Err(ErroreReport::RigaSenzaData); },
        Some(t) => t,
    };
    let data: Data = match parse_date(copia_testo(testo), anno) {
        None => { return Err(ErroreReport::DataNonValida); },
        Some(d) => d,
    };
    let esito = intervallo.comprende(data);
    match esito {
        std::cmp::Ordering::Less => Ok(Passo::Interrompi),
        std::cmp::Ordering::Greater => Ok(Passo::Salta),
        std::cmp::Ordering::Equal => match &collegamento.indirizzo {
            None => Err(ErroreReport::LinkSenzaIndirizzo),
            Some(l) => Ok(Passo::Scarica(copia_testo(codice), copia_testo(l))),
        },
    }
}

/// A player as read from a ranking: code, name and the code of their club.
pub type Letto = (Seq<char>, Seq<char>, Seq<char>);

/// `[F0784]`, the code of the club of the report.
pub open spec fn codice_circolo() -> Seq<char> {
    "[F0784]"@
}

/// The text of cell `i` of a ranking row, without surrounding white space.
pub open spec fn cella(riga: Seq<Option<Seq<char>>>, i: int) -> Result<Seq<char>, ErroreReport> {
    if i >= riga.len() {
        Err(ErroreReport::CoppiaIncompleta)
    } else {
        match riga[i] {
            None => Err(ErroreReport::CellaSenzaTesto),
            Some(t) => Ok(senza_spazi(t)),
        }
    }
}

/// The player in cells `da`, `da + 1` and `da + 2` of a ranking row.
pub open spec fn giocatore_letto(riga: Seq<Option<Seq<char>>>, da: int) -> Result<Letto, ErroreReport> {
    match cella(riga, da) {
        Err(e) => Err(e),
        Ok(codice) => match cella(riga, da + 1) {
            Err(e) => Err(e),
            Ok(nome) => match cella(riga, da + 2) {
                Err(e) => Err(e),
                Ok(socio) => Ok((codice, nome, socio)),
            },
        },
    }
}

/// The two players of a ranking row: cells 0 to 2, then 3 to 5.
pub open spec fn coppia_letta(riga: Seq<Option<Seq<char>>>) -> Result<(Letto, Letto), ErroreReport> {
    match giocatore_letto(riga, 0) {
        Err(e) => Err(e),
        Ok(a) => match giocatore_letto(riga, 3) {
            Err(e) => Err(e),
            Ok(b) => Ok((a, b)),
        },
    }
}

/// The pairs of the first `k` ranking rows, with `coppie` pairs counted
/// before them; an error at the first row that cannot be read or counted.
pub open spec fn coppie_lette(righe: Seq<Seq<Option<Seq<char>>>>, coppie: int, k: int) -> Result<
    Seq<(Letto, Letto)>,
    ErroreReport,
>
    decreases k,
{
    if k <= 0 {
        Ok(Seq::empty())
    } else {
        match coppie_lette(righe, coppie, k - 1) {
            Err(e) => Err(e),
            Ok(s) => if coppie + k > i32::MAX {
                Err(ErroreReport::TroppeCoppie)
            } else {
                match coppia_letta(righe[k - 1]) {
                    Err(e) => Err(e),
                    Ok(c) => Ok(s.push(c)),
                }
            },
        }
    }
}

/// The club with player `l` added, unless it has that code already.
pub open spec fn inserisci_se_assente(m: Map<Seq<char>, GiocatoreV>, l: Letto) -> Map<Seq<char>, GiocatoreV> {
    con_giocatore(m, l.0, l.1, l.2 == codice_circolo())
}

/// The club with the players of the first `k` pairs of `cs` added.
pub open spec fn dopo_inserimenti(m: Map<Seq<char>, GiocatoreV>, cs: Seq<(Letto, Letto)>, k: int) -> Map<
    Seq<char>,
    GiocatoreV,
>
    decreases k,
{
    if k <= 0 {
        m
    } else {
        inserisci_se_assente(inserisci_se_assente(dopo_inserimenti(m, cs, k - 1), cs[k - 1].0), cs[k - 1].1)
    }
}

/// The ranking of pairs read: the codes of their players.
pub open spec fn classifica_letta(cs: Seq<(Letto, Letto)>) -> Seq<(Seq<char>, Seq<char>)> {
    cs.map_values(|c: (Letto, Letto)| (c.0.0, c.1.0))
}

/// The characters of the cells of a ranking.
pub open spec fn celle_v(righe: Seq<Vec<Option<String>>>) -> Seq<Seq<Option<Seq<char>>>> {
    righe.map_values(|r: Vec<Option<String>>| r@.map_values(|t: Option<String>| testo_opzionale(t)))
}

fn leggi_cella(riga: &Vec<Option<String>>, i: usize) -> (r: Result<String, ErroreReport>)
    ensures
        match (r, cella(riga@.map_values(|t: Option<String>| testo_opzionale(t)), i as int)) {
            (Ok(a), Ok(b)) => a@ == b,
            (Err(a), Err(b)) => a == b,
            _ => false,
        },
{
    let ghost v = riga@.map_values(|t: Option<String>| testo_opzionale(t));
    if i >= riga.len() {
        return Err(ErroreReport::CoppiaIncompleta);
    }
    assert(v[i as int] == testo_opzionale(riga@[i as int]));
    match &riga[i] {
        None => Err(ErroreReport::CellaSenzaTesto),
        Some(t) => Ok(da_caratteri(&pulisci(&caratteri(t.as_str())))),
    }
}

fn leggi_giocatore(riga: &Vec<Option<String>>, da: usize) -> (r: Result<(String, String, String), ErroreReport>)
    requires
        da <= 3,
    ensures
        match (r, giocatore_letto(riga@.map_values(|t: Option<String>| testo_opzionale(t)), da as int)) {
            (Ok(a), Ok(b)) => a.0@ == b.0 && a.1@ == b.1 && a.2@ == b.2,
            (Err(a), Err(b)) => a == b,
            _ => false,
        },
{
    let codice = match leggi_cella(riga, da) {
        Err(e) => { return Err(e); },
        Ok(c) => c,
    };
    let nome = match leggi_cella(riga, da + 1) {
        Err(e) => { return Err(e); },
        Ok(c) => c,
    };
    let socio = match leggi_cella(riga, da + 2) {
        Err(e) => { return Err(e); },
        Ok(c) => c,
    };
    Ok((codice, nome, socio))
}

/// The report being built: the club, the tournaments in the period and
/// their pairs.
pub struct Resoconto {
    circolo: Circolo,
    tornei: u32,
    coppie: u32,
}

impl Resoconto {
    /// The players met so far.
    pub closed spec fn giocatori(&self) -> Map<Seq<char>, GiocatoreV> {
        self.circolo.giocatori()
    }

    /// The tournaments counted so far.
    pub closed spec fn tornei_v(&self) -> int {
        self.tornei as int
    }

    /// The pairs counted so far.
    pub closed spec fn coppie_v(&self) -> int {
        self.coppie as int
    }

    /// A report with no player, tournament or pair yet.
    pub fn new() -> (r: Resoconto)
        ensures
            r.giocatori() == Map::<Seq<char>, GiocatoreV>::empty(),
            r.tornei_v() == 0,
            r.coppie_v() == 0,
    {
        Resoconto { circolo: Circolo::new(), tornei: 0, coppie: 0 }
    }

    /// The club.
    pub fn circolo(&self) -> (r: &Circolo)
        ensures
            r.giocatori() == self.giocatori(),
    {
        &self.circolo
    }

    /// The tournaments counted.
    pub fn tornei(&self) -> (r: u32)
        ensures
            r == self.tornei_v(),
    {
        self.tornei
    }

    /// The pairs counted.
    pub fn coppie(&self) -> (r: u32)
        ensures
            r == self.coppie_v(),
    {
        self.coppie
    }

    /// Counts tournament `codice_torneo` of the period, whose ranking has
    /// the player cells `righe`: counts its pairs, adds the players not met
    /// yet (a member of the club when their club code is `[F0784]`) and
    /// gives them their places.
    pub fn registra_torneo(&mut self, codice_torneo: &str, righe: &Vec<Vec<Option<String>>>) -> (r: Result<
        (),
        ErroreReport,
    >)
        ensures
            ({
                let n = righe@.len() as int;
                let letti = coppie_lette(celle_v(righe@), old(self).coppie_v(), n);
                let m = dopo_inserimenti(old(self).giocatori(), letti->Ok_0, n);
                let cs = classifica_letta(letti->Ok_0);
                &&& r is Ok <==> (old(self).tornei_v() < i32::MAX && letti is Ok && premiazione_possibile(m, cs, n))
                &&& r is Ok ==> {
                    &&& final(self).giocatori() == premiazione(m, cs, n)
                    &&& final(self).tornei_v() == old(self).tornei_v() + 1
                    &&& final(self).coppie_v() == old(self).coppie_v() + n
                }
                &&& r matches Err(e) ==> e == (if old(self).tornei_v() >= i32::MAX {
                    ErroreReport::TroppiTornei
                } else if letti is Err {
                    letti->Err_0
                } else {
                    ErroreReport::PremiazioneImpossibile
                })
            }),
    {
        if self.tornei >= 2147483647 {
            return Err(ErroreReport::TroppiTornei);
        }
        self.tornei = self.tornei + 1;
        let n = righe.len();
        let ghost celle = celle_v(righe@);
        let ghost m0 = self.circolo.giocatori();
        let ghost c0 = self.coppie as int;
        let ghost t1 = self.tornei as int;
        assert(m0 == old(self).giocatori() && c0 == old(self).coppie_v());
        assert(t1 == old(self).tornei_v() + 1);
        let mut torneo = Tournament::new(codice_torneo);
        let mut k: usize = 0;
        while k < n
            invariant
                n == righe@.len(),
                celle == celle_v(righe@),
                k <= n,
                coppie_lette(celle, c0, k as int) is Ok,
                self.coppie == c0 + k,
                self.circolo.giocatori() == dopo_inserimenti(m0, coppie_lette(celle, c0, k as int)->Ok_0, k as int),
                torneo.classifica() == classifica_letta(coppie_lette(celle, c0, k as int)->Ok_0),
                coppie_lette(celle, c0, k as int)->Ok_0.len() == k,
                self.tornei == t1,
                m0 == old(self).giocatori(),
                c0 == old(self).coppie_v(),
                t1 == old(self).tornei_v() + 1,
                old(self).tornei_v() < i32::MAX,
            decreases n - k,
        {
            let ghost prima = coppie_lette(celle, c0, k as int)->Ok_0;
            if self.coppie >= 2147483647 {
                proof {
                    lemma_errore_resta(celle, c0, k as int + 1, n as int);
                }
                return Err(ErroreReport::TroppeCoppie);
            }
            self.coppie = self.coppie + 1;
            assert(celle[k as int] == righe@[k as int]@.map_values(|t: Option<String>| testo_opzionale(t)));
            let a = match leggi_giocatore(&righe[k], 0) {
                Err(e) => {
                    proof {
                        lemma_errore_resta(celle, c0, k as int + 1, n as int);
                    }
                    return Err(e);
                },
                Ok(g) => g,
            };
            let b = match leggi_giocatore(&righe[k], 3) {
                Err(e) => {
                    proof {
                        lemma_errore_resta(celle, c0, k as int + 1, n as int);
                    }
                    return Err(e);
                },
                Ok(g) => g,
            };
            let circolo_di_a = caratteri(a.2.as_str());
            let socio_a = uguali(&circolo_di_a, &caratteri("[F0784]"));
            self.circolo.presente_o_inserisci(a.0.as_str(), a.1.as_str(), socio_a);
            let circolo_di_b = caratteri(b.2.as_str());
            let socio_b = uguali(&circolo_di_b, &caratteri("[F0784]"));
            self.circolo.presente_o_inserisci(b.0.as_str(), b.1.as_str(), socio_b);
            torneo.aggiungi_coppia(a.0.as_str(), b.0.as_str());
            proof {
                let dopo = coppie_lette(celle, c0, k as int + 1)->Ok_0;
                assert(dopo == prima.push(((a.0@, a.1@, a.2@), (b.0@, b.1@, b.2@))));
                lemma_inserimenti_prefisso(m0, prima, dopo, k as int);
                assert(classifica_letta(dopo) =~= classifica_letta(prima).push((a.0@, b.0@)));
            }
            k = k + 1;
        }
        if !torneo.premiazione_ammessa(&self.circolo) {
            return Err(ErroreReport::PremiazioneImpossibile);
        }
        torneo.dai_premi(&mut self.circolo);
        Ok(())
    }
}

/// The report's totals: tournaments, pairs, takings at 10 euros a pair and
/// cards at 15 euros a tournament.
pub struct Totali {
    pub tornei: u32,
    pub coppie: u32,
    pub incasso: u32,
    pub carte: u32,
}

impl Resoconto {
    /// The totals; `None` where the takings exceed `i32::MAX` or the cost
    /// of the cards exceeds `u32::MAX`.
    pub fn totali(&self) -> (r: Option<Totali>)
        ensures
            r is Some <==> (self.coppie_v() * 10 <= i32::MAX && self.tornei_v() * 15 <= u32::MAX),
            r matches Some(t) ==> {
                &&& t.tornei == self.tornei_v()
                &&& t.coppie == self.coppie_v()
                &&& t.incasso == self.coppie_v() * 10
                &&& t.carte == self.tornei_v() * 15
            },
    {
        if self.coppie > 214748364 || self.tornei > 286331153 {
            return None;
        }
        Some(Totali { tornei: self.tornei, coppie: self.coppie, incasso: self.coppie * 10, carte: self.tornei * 15 })
    }
}

/// The prize money of the first `k` players of `g`.
pub open spec fn somma_totali(g: Seq<GiocatoreV>, k: int) -> int
    decreases k,
{
    if k <= 0 {
        0
    } else {
        somma_totali(g, k - 1) + totale_premi(g[k - 1])
    }
}

proof fn lemma_premi_limitati(p: GiocatoreV)
    ensures
        0 <= totale_premi(p) <= 4 * 11 * 255 * 15,
{
    crate::giocatore::lemma_somma_premi_limitata(p.primo, 0, 11);
    crate::giocatore::lemma_somma_premi_limitata(p.secondo, 1, 11);
    crate::giocatore::lemma_somma_premi_limitata(p.terzo, 2, 11);
    crate::giocatore::lemma_somma_premi_limitata(p.quarto, 3, 11);
}

/// All the prize money won by `giocatori`.
pub fn somma_premi(giocatori: &Vec<&Player>) -> (r: u128)
    ensures
        r == somma_totali(giocatori@.map_values(|p: &Player| p@), giocatori@.len() as int),
{
    let ghost g = giocatori@.map_values(|p: &Player| p@);
    let mut acc: u128 = 0;
    let mut i: usize = 0;
    while i < giocatori.len()
        invariant
            i <= giocatori.len(),
            g == giocatori@.map_values(|p: &Player| p@),
            acc == somma_totali(g, i as int),
            acc <= i * 168300,
        decreases giocatori.len() - i,
    {
        proof {
            lemma_premi_limitati(g[i as int]);
        }
        let t = giocatori[i].tot_premi();
        acc = acc + t as u128;
        i = i + 1;
    }
    acc
}

/// Player `x` is one of the first `k` pairs read.
pub open spec fn tra_i_letti(cs: Seq<(Letto, Letto)>, k: int, x: Seq<char>) -> bool {
    exists|j: int| 0 <= j < k && (cs[j].0.0 == x || cs[j].1.0 == x)
}

proof fn lemma_inserimenti(m: Map<Seq<char>, GiocatoreV>, cs: Seq<(Letto, Letto)>, k: int, x: Seq<char>)
    requires
        0 <= k <= cs.len(),
    ensures
        dopo_inserimenti(m, cs, k).dom().contains(x) <==> (m.dom().contains(x) || tra_i_letti(cs, k, x)),
        m.dom().contains(x) ==> dopo_inserimenti(m, cs, k)[x] == m[x],
        !m.dom().contains(x) && tra_i_letti(cs, k, x) ==> dopo_inserimenti(m, cs, k)[x].giocati == 0,
    decreases k,
{
    if k > 0 {
        lemma_inserimenti(m, cs, k - 1, x);
        if tra_i_letti(cs, k, x) && !tra_i_letti(cs, k - 1, x) {
            let j = choose|j: int| 0 <= j < k && (cs[j].0.0 == x || cs[j].1.0 == x);
            assert(j == k - 1);
        }
        if tra_i_letti(cs, k - 1, x) {
            let j = choose|j: int| 0 <= j < k - 1 && (cs[j].0.0 == x || cs[j].1.0 == x);
            assert(0 <= j < k && (cs[j].0.0 == x || cs[j].1.0 == x));
        }
    }
}

/// After a tournament is registered, the club has the players it had and
/// those of the tournament; each has played once more for each time they
/// appear in its ranking, players new to the club having played nothing
/// before.
pub proof fn lemma_torneo_registrato(m: Map<Seq<char>, GiocatoreV>, letti: Seq<(Letto, Letto)>)
    requires
        premiazione_possibile(
            dopo_inserimenti(m, letti, letti.len() as int),
            classifica_letta(letti),
            letti.len() as int,
        ),
    ensures
        forall|x: Seq<char>|
            #[trigger] premiazione(
                dopo_inserimenti(m, letti, letti.len() as int),
                classifica_letta(letti),
                letti.len() as int,
            ).dom().contains(x) <==> (m.dom().contains(x) || tra_i_letti(letti, letti.len() as int, x)),
        forall|x: Seq<char>|
            #[trigger] premiazione(
                dopo_inserimenti(m, letti, letti.len() as int),
                classifica_letta(letti),
                letti.len() as int,
            ).dom().contains(x) ==> premiazione(
                dopo_inserimenti(m, letti, letti.len() as int),
                classifica_letta(letti),
                letti.len() as int,
            )[x].giocati == (if m.dom().contains(x) { m[x].giocati as int } else { 0 }) + occorrenze(
                classifica_letta(letti),
                letti.len() as int,
                x,
            ),
{
    let n = letti.len() as int;
    let m1 = dopo_inserimenti(m, letti, n);
    let cs = classifica_letta(letti);
    lemma_premiazione_conserva_e_conta(m1, cs, n);
    assert forall|x: Seq<char>| #[trigger] premiazione(m1, cs, n).dom().contains(x) <==> (m.dom().contains(x)
        || tra_i_letti(letti, n, x)) by {
        lemma_inserimenti(m, letti, n, x);
    }
    assert forall|x: Seq<char>| #[trigger] premiazione(m1, cs, n).dom().contains(x) implies premiazione(m1, cs, n)[x].giocati
        == (if m.dom().contains(x) { m[x].giocati as int } else { 0 }) + occorrenze(cs, n, x) by {
        lemma_inserimenti(m, letti, n, x);
        assert(m1.dom().contains(x));
    }
}

/// The text of cell `i` of a ranking row, trimmed.
pub open spec fn testo_cella(riga: Seq<Option<Seq<char>>>, i: int) -> Seq<char> {
    senza_spazi(riga[i]->0)
}

/// A pair is read from the first six cells of its row: the first player's
/// code, name and club from cells 0, 1 and 2, the second's from cells 3, 4
/// and 5, each trimmed; all six cells must be there with a text.
pub proof fn lemma_coppia_dalle_celle(riga: Seq<Option<Seq<char>>>)
    ensures
        coppia_letta(riga) is Ok <==> (riga.len() >= 6 && forall|i: int| 0 <= i < 6 ==> #[trigger] riga[i] is Some),
        coppia_letta(riga) is Ok ==> coppia_letta(riga)->Ok_0 == (
            (testo_cella(riga, 0), testo_cella(riga, 1), testo_cella(riga, 2)),
            (testo_cella(riga, 3), testo_cella(riga, 4), testo_cella(riga, 5)),
        ),
{
    if riga.len() >= 6 && forall|i: int| 0 <= i < 6 ==> #[trigger] riga[i] is Some {
        assert(riga[0] is Some && riga[1] is Some && riga[2] is Some);
        assert(riga[3] is Some && riga[4] is Some && riga[5] is Some);
    }
    if coppia_letta(riga) is Ok {
        assert forall|i: int| 0 <= i < 6 implies #[trigger] riga[i] is Some by {
            if i == 0 {} else if i == 1 {} else if i == 2 {} else if i == 3 {} else if i == 4 {} else {}
        }
    }
}

proof fn lemma_coppie_lette_righe(celle: Seq<Seq<Option<Seq<char>>>>, c0: int, k: int)
    requires
        0 <= k,
        coppie_lette(celle, c0, k) is Ok,
    ensures
        coppie_lette(celle, c0, k)->Ok_0.len() == k,
        forall|j: int| 0 <= j < k ==> coppia_letta(celle[j]) == Ok::<(Letto, Letto), ErroreReport>(
            #[trigger] coppie_lette(celle, c0, k)->Ok_0[j],
        ),
    decreases k,
{
    if k > 0 {
        lemma_coppie_lette_righe(celle, c0, k - 1);
        let s = coppie_lette(celle, c0, k - 1)->Ok_0;
        assert forall|j: int| 0 <= j < k implies coppia_letta(celle[j]) == Ok::<(Letto, Letto), ErroreReport>(
            #[trigger] coppie_lette(celle, c0, k)->Ok_0[j],
        ) by {
            if j < k - 1 {
                assert(coppie_lette(celle, c0, k)->Ok_0[j] == s[j]);
            }
        }
    }
}

/// Player `x` is not in the first `j` pairs.
pub open spec fn assente_prima(cs: Seq<(Letto, Letto)>, j: int, x: Seq<char>) -> bool {
    forall|i: int| 0 <= i < j ==> #[trigger] cs[i].0.0 != x && cs[i].1.0 != x
}

proof fn lemma_primo_incontro(
    m: Map<Seq<char>, GiocatoreV>,
    cs: Seq<(Letto, Letto)>,
    k: int,
    j: int,
    secondo: bool,
)
    requires
        0 <= j < k <= cs.len(),
        !m.dom().contains(if secondo { cs[j].1.0 } else { cs[j].0.0 }),
        assente_prima(cs, j, if secondo { cs[j].1.0 } else { cs[j].0.0 }),
        secondo ==> cs[j].0.0 != cs[j].1.0,
    ensures
        ({
            let l = if secondo { cs[j].1 } else { cs[j].0 };
            &&& dopo_inserimenti(m, cs, k).dom().contains(l.0)
            &&& dopo_inserimenti(m, cs, k)[l.0] == nuovo_giocatore(l.1, l.2 == codice_circolo())
        }),
    decreases k,
{
    let l = if secondo { cs[j].1 } else { cs[j].0 };
    if k > j + 1 {
        lemma_primo_incontro(m, cs, k - 1, j, secondo);
    } else {
        lemma_inserimenti(m, cs, j, l.0);
        if tra_i_letti(cs, j, l.0) {
            let i = choose|i: int| 0 <= i < j && (cs[i].0.0 == l.0 || cs[i].1.0 == l.0);
            assert(cs[i].0.0 != l.0 && cs[i].1.0 != l.0);
        }
    }
}

/// A player new to the club, first met in row `j` of a ranking, enters the
/// club with the name and the club of that row's cells: cells 1 and 2 when
/// first of its pair, cells 4 and 5 when second; a member exactly when the
/// club cell reads `[F0784]`. Giving the places changes neither.
pub proof fn lemma_nuovo_giocatore_dalle_celle(
    m: Map<Seq<char>, GiocatoreV>,
    celle: Seq<Seq<Option<Seq<char>>>>,
    c0: int,
    j: int,
    secondo: bool,
)
    requires
        coppie_lette(celle, c0, celle.len() as int) is Ok,
        premiazione_possibile(
            dopo_inserimenti(m, coppie_lette(celle, c0, celle.len() as int)->Ok_0, celle.len() as int),
            classifica_letta(coppie_lette(celle, c0, celle.len() as int)->Ok_0),
            celle.len() as int,
        ),
        0 <= j < celle.len(),
        !m.dom().contains(testo_cella(celle[j], if secondo { 3 } else { 0 })),
        forall|i: int|
            0 <= i < j ==> testo_cella(#[trigger] celle[i], 0) != testo_cella(celle[j], if secondo { 3 } else { 0 })
                && testo_cella(celle[i], 3) != testo_cella(celle[j], if secondo { 3 } else { 0 }),
        secondo ==> testo_cella(celle[j], 0) != testo_cella(celle[j], 3),
    ensures
        ({
            let n = celle.len() as int;
            let letti = coppie_lette(celle, c0, n)->Ok_0;
            let finale = premiazione(dopo_inserimenti(m, letti, n), classifica_letta(letti), n);
            let x = testo_cella(celle[j], if secondo { 3 } else { 0 });
            &&& finale.dom().contains(x)
            &&& finale[x].nome == testo_cella(celle[j], if secondo { 4 } else { 1 })
            &&& finale[x].socio == (testo_cella(celle[j], if secondo { 5 } else { 2 }) == "[F0784]"@)
        }),
{
    let n = celle.len() as int;
    let letti = coppie_lette(celle, c0, n)->Ok_0;
    lemma_coppie_lette_righe(celle, c0, n);
    assert forall|i: int| 0 <= i <= j implies #[trigger] letti[i] == (
        (testo_cella(celle[i], 0), testo_cella(celle[i], 1), testo_cella(celle[i], 2)),
        (testo_cella(celle[i], 3), testo_cella(celle[i], 4), testo_cella(celle[i], 5)),
    ) by {
        assert(coppia_letta(celle[i]) == Ok::<(Letto, Letto), ErroreReport>(letti[i]));
        lemma_coppia_dalle_celle(celle[i]);
    }
    let x = testo_cella(celle[j], if secondo { 3 } else { 0 });
    assert(assente_prima(letti, j, x)) by {
        assert forall|i: int| 0 <= i < j implies #[trigger] letti[i].0.0 != x && letti[i].1.0 != x by {
            assert(letti[i] == (
                (testo_cella(celle[i], 0), testo_cella(celle[i], 1), testo_cella(celle[i], 2)),
                (testo_cella(celle[i], 3), testo_cella(celle[i], 4), testo_cella(celle[i], 5)),
            ));
        }
    }
    assert(letti[j] == (
        (testo_cella(celle[j], 0), testo_cella(celle[j], 1), testo_cella(celle[j], 2)),
        (testo_cella(celle[j], 3), testo_cella(celle[j], 4), testo_cella(celle[j], 5)),
    ));
    lemma_primo_incontro(m, letti, n, j, secondo);
    lemma_premiazione_conserva_e_conta(dopo_inserimenti(m, letti, n), classifica_letta(letti), n);
}

proof fn lemma_inserimenti_prefisso(
    m: Map<Seq<char>, GiocatoreV>,
    c1: Seq<(Letto, Letto)>,
    c2: Seq<(Letto, Letto)>,
    k: int,
)
    requires
        k <= c1.len(),
        k <= c2.len(),
        forall|j: int| 0 <= j < k ==> c1[j] == c2[j],
    ensures
        dopo_inserimenti(m, c1, k) == dopo_inserimenti(m, c2, k),
    decreases k,
{
    if k > 0 {
        lemma_inserimenti_prefisso(m, c1, c2, k - 1);
    }
}

proof fn lemma_errore_resta(celle: Seq<Seq<Option<Seq<char>>>>, c0: int, j: int, k: int)
    requires
        0 <= j <= k,
        coppie_lette(celle, c0, j) is Err,
    ensures
        coppie_lette(celle, c0, k) == coppie_lette(celle, c0, j),
    decreases k - j,
{
    if j < k {
        lemma_errore_resta(celle, c0, j, k - 1);
    }
}

} // verus!

verus! {

/// The titles of the report's columns.
pub open spec fn titoli() -> Seq<Seq<char>> {
    seq![
        "Giocatore"@,
        "Socio"@,
        "Primo"@,
        "Secondo"@,
        "Terzo"@,
        "Quarto"@,
        "Tot Premi"@,
        "Tot Tornei"@,
        "EV"@,
    ]
}

/// The header row of the report's sheet.
pub fn intestazione() -> (r: Vec<&'static str>)
    ensures
        r@.map_values(|t: &str| t@) == titoli(),
{
    let r = vec![
        "Giocatore",
        "Socio",
        "Primo",
        "Secondo",
        "Terzo",
        "Quarto",
        "Tot Premi",
        "Tot Tornei",
        "EV",
    ];
    assert(r@.map_values(|t: &str| t@) =~= titoli());
    r
}

} // verus!
