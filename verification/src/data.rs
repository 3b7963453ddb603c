//! Calendar dates, as the tournament list writes them and as the report
//! compares them.

use vstd::prelude::*;
use crate::testo::{caratteri, dividi, dividi_exec, leggi_numero, leggi_u32, uguali, numerale, valore_cifra,
    lemma_dividi_tre, lemma_numerale_di_cifre, lemma_numerale_si_rilegge};

verus! {

#[verifier::external_type_specification]
#[verifier::external_body]
pub struct ExNaiveDate(chrono::NaiveDate);


/// Year `a` of the proleptic Gregorian calendar is a leap year.
pub open spec fn bisestile(a: int) -> bool {
    (a % 4 == 0 && a % 100 != 0) || a % 400 == 0
}

/// The number of days of month `m` of year `a`.
pub open spec fn giorni_del_mese(a: int, m: int) -> int {
    if m == 2 {
        if bisestile(a) { 29 } else { 28 }
    } else if m == 4 || m == 6 || m == 9 || m == 11 {
        30
    } else {
        31
    }
}

/// Year `a`, month `m` and day `g` make a date that `chrono::NaiveDate`
/// can hold: a real day of the proleptic Gregorian calendar in years
/// -262143 to 262142.
pub open spec fn data_valida(a: int, m: int, g: int) -> bool {
    &&& -262143 <= a <= 262142
    &&& 1 <= m <= 12
    &&& 1 <= g <= giorni_del_mese(a, m)
}

/// `chrono::NaiveDate::from_ymd_opt`: the date of year `anno`, month
/// `mese` and day `giorno`, which exists exactly when the three make a
/// real day in the years that `NaiveDate` covers.
#[verifier::external_body]
fn data_chrono(anno: i32, mese: u32, giorno: u32) -> (r: Option<chrono::NaiveDate>)
    ensures
        r is Some <==> data_valida(anno as int, mese as int, giorno as int),
{
    chrono::NaiveDate::from_ymd_opt(anno, mese, giorno)
}

/// A day of the calendar.
#[derive(Clone, Copy, Debug)]
pub struct Data {
    anno: i32,
    mese: u32,
    giorno: u32,
}

/// `a` comes before `b` in the calendar.
pub open spec fn prima(a: (i32, u32, u32), b: (i32, u32, u32)) -> bool {
    ||| a.0 < b.0
    ||| a.0 == b.0 && a.1 < b.1
    ||| a.0 == b.0 && a.1 == b.1 && a.2 < b.2
}

/// A date as the number written YYYYMMDD: the year times 10000, plus the
/// month times 100, plus the day.
pub open spec fn numero_data(d: (i32, u32, u32)) -> int {
    d.0 * 10000 + d.1 * 100 + d.2
}

/// Of two real days, the one that comes first in the calendar is the one
/// whose number YYYYMMDD is smaller.
pub proof fn lemma_prima_come_numero(a: (i32, u32, u32), b: (i32, u32, u32))
    requires
        data_valida(a.0 as int, a.1 as int, a.2 as int),
        data_valida(b.0 as int, b.1 as int, b.2 as int),
    ensures
        prima(a, b) <==> numero_data(a) < numero_data(b),
        a == b <==> numero_data(a) == numero_data(b),
{
}

impl Data {
    #[verifier::type_invariant]
    spec fn valida(self) -> bool {
        data_valida(self.anno as int, self.mese as int, self.giorno as int)
    }

    /// Year, month and day.
    pub closed spec fn giorno_v(self) -> (i32, u32, u32) {
        (self.anno, self.mese, self.giorno)
    }

    /// The date of year `anno`, month `mese` and day `giorno`, if that day
    /// exists (as `NaiveDate::from_ymd_opt`).
    pub fn new(anno: i32, mese: u32, giorno: u32) -> (r: Option<Data>)
        ensures
            r is Some <==> data_valida(anno as int, mese as int, giorno as int),
            r matches Some(d) ==> d.giorno_v() == (anno, mese, giorno),
    {
        match data_chrono(anno, mese, giorno) {
            Some(_) => Some(Data { anno, mese, giorno }),
            None => None,
        }
    }

    /// The year.
    pub fn anno(&self) -> (r: i32)
        ensures
            r == self.giorno_v().0,
            data_valida(self.giorno_v().0 as int, self.giorno_v().1 as int, self.giorno_v().2 as int),
    {
        proof {
            use_type_invariant(self);
        }
        self.anno
    }

    /// The month, 1 to 12.
    pub fn mese(&self) -> (r: u32)
        ensures
            r == self.giorno_v().1,
            data_valida(self.giorno_v().0 as int, self.giorno_v().1 as int, self.giorno_v().2 as int),
    {
        proof {
            use_type_invariant(self);
        }
        self.mese
    }

    /// The day of the month.
    pub fn giorno(&self) -> (r: u32)
        ensures
            r == self.giorno_v().2,
            data_valida(self.giorno_v().0 as int, self.giorno_v().1 as int, self.giorno_v().2 as int),
    {
        proof {
            use_type_invariant(self);
        }
        self.giorno
    }

    /// Whether this day comes before `other`.
    pub fn prima_di(&self, other: &Data) -> (r: bool)
        ensures
            r == prima(self.giorno_v(), other.giorno_v()),
            r == (numero_data(self.giorno_v()) < numero_data(other.giorno_v())),
    {
        proof {
            use_type_invariant(self);
            use_type_invariant(other);
            lemma_prima_come_numero(self.giorno_v(), other.giorno_v());
        }
        self.anno < other.anno || (self.anno == other.anno && self.mese < other.mese) || (self.anno
            == other.anno && self.mese == other.mese && self.giorno < other.giorno)
    }
}

/// The month whose Italian name is `nome`, in lower case.
pub open spec fn numero_mese(nome: Seq<char>) -> Option<u32> {
    if nome == "gennaio"@ { Some(1) }
    else if nome == "febbraio"@ { Some(2) }
    else if nome == "marzo"@ { Some(3) }
    else if nome == "aprile"@ { Some(4) }
    else if nome == "maggio"@ { Some(5) }
    else if nome == "giugno"@ { Some(6) }
    else if nome == "luglio"@ { Some(7) }
    else if nome == "agosto"@ { Some(8) }
    else if nome == "settembre"@ { Some(9) }
    else if nome == "ottobre"@ { Some(10) }
    else if nome == "novembre"@ { Some(11) }
    else if nome == "dicembre"@ { Some(12) }
    else { None }
}

/// The Italian names of the months, in calendar order.
pub open spec fn nomi_dei_mesi() -> Seq<Seq<char>> {
    seq!["gennaio"@, "febbraio"@, "marzo"@, "aprile"@, "maggio"@, "giugno"@, "luglio"@, "agosto"@, "settembre"@, "ottobre"@, "novembre"@, "dicembre"@]
}

proof fn rivela_mesi()
    ensures
        nomi_dei_mesi().len() == 12,
        forall|k: int, i: int|
            0 <= k < 12 && 0 <= i < nomi_dei_mesi()[k].len() ==> #[trigger] nomi_dei_mesi()[k][i] != '&',
{
    reveal_strlit("gennaio");
    reveal_strlit("febbraio");
    reveal_strlit("marzo");
    reveal_strlit("aprile");
    reveal_strlit("maggio");
    reveal_strlit("giugno");
    reveal_strlit("luglio");
    reveal_strlit("agosto");
    reveal_strlit("settembre");
    reveal_strlit("ottobre");
    reveal_strlit("novembre");
    reveal_strlit("dicembre");
}

/// The `k`-th Italian month name, counting from 1 for `gennaio`, reads as
/// month `k`; so different names give different months.
pub proof fn lemma_mesi_in_ordine()
    ensures
        forall|k: int| 1 <= k <= 12 ==> #[trigger] numero_mese(nomi_dei_mesi()[k - 1]) == Some(k as u32),
{
    reveal_strlit("gennaio");
    reveal_strlit("febbraio");
    reveal_strlit("marzo");
    reveal_strlit("aprile");
    reveal_strlit("maggio");
    reveal_strlit("giugno");
    reveal_strlit("luglio");
    reveal_strlit("agosto");
    reveal_strlit("settembre");
    reveal_strlit("ottobre");
    reveal_strlit("novembre");
    reveal_strlit("dicembre");
    assert(nomi_dei_mesi()[1][0] != nomi_dei_mesi()[0][0]);
    assert(nomi_dei_mesi()[2][0] != nomi_dei_mesi()[0][0]);
    assert(nomi_dei_mesi()[2][0] != nomi_dei_mesi()[1][0]);
    assert(nomi_dei_mesi()[3][0] != nomi_dei_mesi()[0][0]);
    assert(nomi_dei_mesi()[3][0] != nomi_dei_mesi()[1][0]);
    assert(nomi_dei_mesi()[3][0] != nomi_dei_mesi()[2][0]);
    assert(nomi_dei_mesi()[4][0] != nomi_dei_mesi()[0][0]);
    assert(nomi_dei_mesi()[4][0] != nomi_dei_mesi()[1][0]);
    assert(nomi_dei_mesi()[4][2] != nomi_dei_mesi()[2][2]);
    assert(nomi_dei_mesi()[4][0] != nomi_dei_mesi()[3][0]);
    assert(nomi_dei_mesi()[5][1] != nomi_dei_mesi()[0][1]);
    assert(nomi_dei_mesi()[5][0] != nomi_dei_mesi()[1][0]);
    assert(nomi_dei_mesi()[5][0] != nomi_dei_mesi()[2][0]);
    assert(nomi_dei_mesi()[5][0] != nomi_dei_mesi()[3][0]);
    assert(nomi_dei_mesi()[5][0] != nomi_dei_mesi()[4][0]);
    assert(nomi_dei_mesi()[6][0] != nomi_dei_mesi()[0][0]);
    assert(nomi_dei_mesi()[6][0] != nomi_dei_mesi()[1][0]);
    assert(nomi_dei_mesi()[6][0] != nomi_dei_mesi()[2][0]);
    assert(nomi_dei_mesi()[6][0] != nomi_dei_mesi()[3][0]);
    assert(nomi_dei_mesi()[6][0] != nomi_dei_mesi()[4][0]);
    assert(nomi_dei_mesi()[6][0] != nomi_dei_mesi()[5][0]);
    assert(nomi_dei_mesi()[7][0] != nomi_dei_mesi()[0][0]);
    assert(nomi_dei_mesi()[7][0] != nomi_dei_mesi()[1][0]);
    assert(nomi_dei_mesi()[7][0] != nomi_dei_mesi()[2][0]);
    assert(nomi_dei_mesi()[7][1] != nomi_dei_mesi()[3][1]);
    assert(nomi_dei_mesi()[7][0] != nomi_dei_mesi()[4][0]);
    assert(nomi_dei_mesi()[7][0] != nomi_dei_mesi()[5][0]);
    assert(nomi_dei_mesi()[7][0] != nomi_dei_mesi()[6][0]);
    assert(nomi_dei_mesi()[8][0] != nomi_dei_mesi()[0][0]);
    assert(nomi_dei_mesi()[8][0] != nomi_dei_mesi()[1][0]);
    assert(nomi_dei_mesi()[8][0] != nomi_dei_mesi()[2][0]);
    assert(nomi_dei_mesi()[8][0] != nomi_dei_mesi()[3][0]);
    assert(nomi_dei_mesi()[8][0] != nomi_dei_mesi()[4][0]);
    assert(nomi_dei_mesi()[8][0] != nomi_dei_mesi()[5][0]);
    assert(nomi_dei_mesi()[8][0] != nomi_dei_mesi()[6][0]);
    assert(nomi_dei_mesi()[8][0] != nomi_dei_mesi()[7][0]);
    assert(nomi_dei_mesi()[9][0] != nomi_dei_mesi()[0][0]);
    assert(nomi_dei_mesi()[9][0] != nomi_dei_mesi()[1][0]);
    assert(nomi_dei_mesi()[9][0] != nomi_dei_mesi()[2][0]);
    assert(nomi_dei_mesi()[9][0] != nomi_dei_mesi()[3][0]);
    assert(nomi_dei_mesi()[9][0] != nomi_dei_mesi()[4][0]);
    assert(nomi_dei_mesi()[9][0] != nomi_dei_mesi()[5][0]);
    assert(nomi_dei_mesi()[9][0] != nomi_dei_mesi()[6][0]);
    assert(nomi_dei_mesi()[9][0] != nomi_dei_mesi()[7][0]);
    assert(nomi_dei_mesi()[9][0] != nomi_dei_mesi()[8][0]);
    assert(nomi_dei_mesi()[10][0] != nomi_dei_mesi()[0][0]);
    assert(nomi_dei_mesi()[10][0] != nomi_dei_mesi()[1][0]);
    assert(nomi_dei_mesi()[10][0] != nomi_dei_mesi()[2][0]);
    assert(nomi_dei_mesi()[10][0] != nomi_dei_mesi()[3][0]);
    assert(nomi_dei_mesi()[10][0] != nomi_dei_mesi()[4][0]);
    assert(nomi_dei_mesi()[10][0] != nomi_dei_mesi()[5][0]);
    assert(nomi_dei_mesi()[10][0] != nomi_dei_mesi()[6][0]);
    assert(nomi_dei_mesi()[10][0] != nomi_dei_mesi()[7][0]);
    assert(nomi_dei_mesi()[10][0] != nomi_dei_mesi()[8][0]);
    assert(nomi_dei_mesi()[10][0] != nomi_dei_mesi()[9][0]);
    assert(nomi_dei_mesi()[11][0] != nomi_dei_mesi()[0][0]);
    assert(nomi_dei_mesi()[11][0] != nomi_dei_mesi()[1][0]);
    assert(nomi_dei_mesi()[11][0] != nomi_dei_mesi()[2][0]);
    assert(nomi_dei_mesi()[11][0] != nomi_dei_mesi()[3][0]);
    assert(nomi_dei_mesi()[11][0] != nomi_dei_mesi()[4][0]);
    assert(nomi_dei_mesi()[11][0] != nomi_dei_mesi()[5][0]);
    assert(nomi_dei_mesi()[11][0] != nomi_dei_mesi()[6][0]);
    assert(nomi_dei_mesi()[11][0] != nomi_dei_mesi()[7][0]);
    assert(nomi_dei_mesi()[11][0] != nomi_dei_mesi()[8][0]);
    assert(nomi_dei_mesi()[11][0] != nomi_dei_mesi()[9][0]);
    assert(nomi_dei_mesi()[11][0] != nomi_dei_mesi()[10][0]);
    assert(numero_mese(nomi_dei_mesi()[0]) == Some(1u32));
    assert(numero_mese(nomi_dei_mesi()[1]) == Some(2u32));
    assert(numero_mese(nomi_dei_mesi()[2]) == Some(3u32));
    assert(numero_mese(nomi_dei_mesi()[3]) == Some(4u32));
    assert(numero_mese(nomi_dei_mesi()[4]) == Some(5u32));
    assert(numero_mese(nomi_dei_mesi()[5]) == Some(6u32));
    assert(numero_mese(nomi_dei_mesi()[6]) == Some(7u32));
    assert(numero_mese(nomi_dei_mesi()[7]) == Some(8u32));
    assert(numero_mese(nomi_dei_mesi()[8]) == Some(9u32));
    assert(numero_mese(nomi_dei_mesi()[9]) == Some(10u32));
    assert(numero_mese(nomi_dei_mesi()[10]) == Some(11u32));
    assert(numero_mese(nomi_dei_mesi()[11]) == Some(12u32));
}

/// A date written as the list writes it, a weekday without `&`, the day's
/// numeral and the month's Italian name joined by `&nbsp;`, reads back as
/// that day of year `anno` whenever the day exists.
pub proof fn lemma_data_scritta(giorno_settimana: Seq<char>, giorno: u32, mese: int, anno: i32)
    requires
        forall|i: int| 0 <= i < giorno_settimana.len() ==> giorno_settimana[i] != '&',
        1 <= mese <= 12,
        data_valida(anno as int, mese, giorno as int),
    ensures
        data_da_testo(
            giorno_settimana + "&nbsp;"@ + numerale(giorno as nat) + "&nbsp;"@ + nomi_dei_mesi()[mese - 1],
            anno,
        ) == Some((anno, mese as u32, giorno)),
{
    reveal_strlit("&nbsp;");
    rivela_mesi();
    lemma_mesi_in_ordine();
    lemma_numerale_di_cifre(giorno as nat);
    lemma_numerale_si_rilegge(giorno);
    let nome = nomi_dei_mesi()[mese - 1];
    assert forall|i: int| 0 <= i < nome.len() implies nome[i] != "&nbsp;"@[0] by {
        assert(nomi_dei_mesi()[mese - 1][i] != '&');
    }
    assert forall|i: int| 0 <= i < numerale(giorno as nat).len() implies numerale(giorno as nat)[i]
        != "&nbsp;"@[0] by {
        assert(valore_cifra(numerale(giorno as nat)[i]) is Some);
    }
    lemma_dividi_tre(giorno_settimana, numerale(giorno as nat), nome, "&nbsp;"@);
}

/// The month of an Italian month name.
pub fn mese_da_nome(nome: &Vec<char>) -> (r: Option<u32>)
    ensures
        r == numero_mese(nome@),
{
    if uguali(nome, &caratteri("gennaio")) { Some(1) }
    else if uguali(nome, &caratteri("febbraio")) { Some(2) }
    else if uguali(nome, &caratteri("marzo")) { Some(3) }
    else if uguali(nome, &caratteri("aprile")) { Some(4) }
    else if uguali(nome, &caratteri("maggio")) { Some(5) }
    else if uguali(nome, &caratteri("giugno")) { Some(6) }
    else if uguali(nome, &caratteri("luglio")) { Some(7) }
    else if uguali(nome, &caratteri("agosto")) { Some(8) }
    else if uguali(nome, &caratteri("settembre")) { Some(9) }
    else if uguali(nome, &caratteri("ottobre")) { Some(10) }
    else if uguali(nome, &caratteri("novembre")) { Some(11) }
    else if uguali(nome, &caratteri("dicembre")) { Some(12) }
    else { None }
}

/// The date written in `testo` in year `anno`: the text is three pieces
/// separated by `&nbsp;`, a weekday, the day and the Italian month name;
/// `None` where these are not there or make no real day.
pub open spec fn data_da_testo(testo: Seq<char>, anno: i32) -> Option<(i32, u32, u32)> {
    let pezzi = dividi(testo, "&nbsp;"@);
    if pezzi.len() != 3 {
        None
    } else {
        match (numero_mese(pezzi[2]), leggi_u32(pezzi[1])) {
            (Some(m), Some(g)) => if data_valida(anno as int, m as int, g as int) {
                Some((anno, m, g))
            } else {
                None
            },
            _ => None,
        }
    }
}

/// The date written in a cell of the tournament list, taken in year
/// `anno` (the current year, for the report); `None` where the text holds
/// no date of that year.
pub fn parse_date(stringa_data: String, anno: i32) -> (r: Option<Data>)
    ensures
        r is Some <==> data_da_testo(stringa_data@, anno) is Some,
        r matches Some(d) ==> data_da_testo(stringa_data@, anno) == Some(d.giorno_v()),
{
    let sep = caratteri("&nbsp;");
    proof {
        reveal_strlit("&nbsp;");
    }
    let pezzi = dividi_exec(&caratteri(stringa_data.as_str()), &sep);
    let ghost vista = pezzi@.map_values(|v: Vec<char>| v@);
    assert(vista.len() == pezzi.len());
    if pezzi.len() != 3 {
        return None;
    }
    assert(vista[1] == pezzi@[1]@ && vista[2] == pezzi@[2]@);
    let mese = match mese_da_nome(&pezzi[2]) {
        Some(m) => m,
        None => { return None; },
    };
    let giorno = match leggi_numero(&pezzi[1]) {
        Some(g) => g,
        None => { return None; },
    };
    Data::new(anno, mese, giorno)
}

} // verus!
