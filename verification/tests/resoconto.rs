use figbget::data::Data;
use figbget::intervallo::Intervallo;
use figbget::pagina::{
    celle_coppie, n_esimo, righe_tornei, CodeNameCircoloSelector, Collegamento, PairSelector, RigaTorneo,
    TournamentDateSelector, TournamentPageSelector, TournamentSelector,
};
use figbget::resoconto::{
    intestazione, somma_premi, valuta_riga, ErroreReport, Passo, Resoconto,
};

fn riga(codice: Option<&str>, data: Option<&str>, indirizzo: Option<&str>, link: bool) -> RigaTorneo {
    RigaTorneo {
        codice: codice.map(|s| s.to_string()),
        collegamento: if link {
            Some(Collegamento { data: data.map(|s| s.to_string()), indirizzo: indirizzo.map(|s| s.to_string()) })
        } else {
            None
        },
    }
}

fn periodo() -> Intervallo {
    Intervallo::new(Data::new(2024, 1, 10).unwrap(), Data::new(2024, 3, 5).unwrap())
}

fn passo(r: Result<Passo, ErroreReport>) -> String {
    match r {
        Ok(Passo::Interrompi) => "interrompi".to_string(),
        Ok(Passo::Salta) => "salta".to_string(),
        Ok(Passo::Scarica(c, l)) => format!("scarica {} {}", c, l),
        Err(e) => format!("{:?}", e),
    }
}

#[test]
fn righe_della_lista() {
    let i = periodo();
    let d = Some("Lun&nbsp;15&nbsp;gennaio");
    assert_eq!(passo(valuta_riga(&riga(Some("T1"), d, Some("x.asp"), true), &i, 2024)), "scarica T1 x.asp");
    assert_eq!(
        passo(valuta_riga(&riga(Some("T1"), Some("Sab&nbsp;9&nbsp;marzo"), Some("x"), true), &i, 2024)),
        "salta"
    );
    assert_eq!(
        passo(valuta_riga(&riga(Some("T1"), Some("Sab&nbsp;9&nbsp;gennaio"), None, true), &i, 2024)),
        "interrompi"
    );
    assert_eq!(passo(valuta_riga(&riga(None, d, Some("x"), true), &i, 2024)), "RigaSenzaCodice");
    assert_eq!(passo(valuta_riga(&riga(Some("T1"), d, Some("x"), false), &i, 2024)), "RigaSenzaLink");
    assert_eq!(passo(valuta_riga(&riga(Some("T1"), None, Some("x"), true), &i, 2024)), "RigaSenzaData");
    assert_eq!(
        passo(valuta_riga(&riga(Some("T1"), Some("15 gennaio"), Some("x"), true), &i, 2024)),
        "DataNonValida"
    );
    assert_eq!(passo(valuta_riga(&riga(Some("T1"), d, None, true), &i, 2024)), "LinkSenzaIndirizzo");
    assert_eq!(
        passo(valuta_riga(&riga(Some("T1"), Some("Sab&nbsp;9&nbsp;marzo"), Some("x"), true), &i, 2023)),
        "interrompi"
    );
    let tutto = Intervallo::new(Data::new(1, 1, 1).unwrap(), Data::new(9999, 12, 31).unwrap());
    assert_eq!(passo(valuta_riga(&riga(Some("T9"), d, Some("y"), true), &tutto, 2031)), "scarica T9 y");
    assert_eq!(
        passo(valuta_riga(&riga(Some("T9"), Some("x&nbsp;29&nbsp;febbraio"), Some("y"), true), &tutto, 2031)),
        "DataNonValida"
    );
}

fn cella(t: &str) -> Option<String> {
    Some(t.to_string())
}

fn coppia(i: usize) -> Vec<Option<String>> {
    vec![
        cella(&format!(" A{} ", i)),
        cella(&format!("Giocatore A{}", i)),
        cella(if i % 2 == 0 { "[F0784]" } else { "[F0001]" }),
        cella(&format!("B{}", i)),
        cella(&format!("\nGiocatore B{}", i)),
        cella(" [F0784]\t"),
        None,
    ]
}

#[test]
fn registra_un_torneo() {
    let mut r = Resoconto::new();
    let righe: Vec<Vec<Option<String>>> = (0..6).map(coppia).collect();
    assert_eq!(r.registra_torneo("T1", &righe), Ok(()));
    assert_eq!(r.tornei(), 1);
    assert_eq!(r.coppie(), 6);
    let c = r.circolo();
    assert_eq!(c.len(), 12);
    let a0 = c.get("A0").unwrap();
    assert_eq!(a0.nome(), "Giocatore A0");
    assert!(a0.socio);
    assert_eq!(a0.primo[0], 1);
    assert_eq!(a0.giocati, 1);
    assert!(!c.get("A1").unwrap().socio);
    assert!(c.get("B1").unwrap().socio);
    assert_eq!(r.registra_torneo("T2", &righe), Ok(()));
    let a0 = r.circolo().get("A0").unwrap();
    assert_eq!(a0.primo[0], 2);
    assert_eq!(a0.giocati, 2);
    assert_eq!(r.tornei(), 2);
    assert_eq!(r.coppie(), 12);
    let t = r.totali().unwrap();
    assert_eq!((t.tornei, t.coppie, t.incasso, t.carte), (2, 12, 120, 30));
    let ordinati = r.circolo().giocatori_ordinati();
    assert_eq!(ordinati.len(), 12);
    assert!(ordinati[0].socio);
    assert_eq!(somma_premi(&ordinati), 4 * 5 + 2 * 0);
}

#[test]
fn errori_di_un_torneo() {
    let mut r = Resoconto::new();
    let mut righe: Vec<Vec<Option<String>>> = (0..6).map(coppia).collect();
    righe[2][4] = None;
    assert_eq!(r.registra_torneo("T1", &righe), Err(ErroreReport::CellaSenzaTesto));
    let mut r = Resoconto::new();
    let mut righe: Vec<Vec<Option<String>>> = (0..6).map(coppia).collect();
    righe[5].truncate(5);
    assert_eq!(r.registra_torneo("T1", &righe), Err(ErroreReport::CoppiaIncompleta));
    let mut r = Resoconto::new();
    let righe: Vec<Vec<Option<String>>> = (0..3).map(coppia).collect();
    assert_eq!(r.registra_torneo("T1", &righe), Err(ErroreReport::PremiazioneImpossibile));
    let mut r = Resoconto::new();
    assert_eq!(r.registra_torneo("T0", &Vec::new()), Ok(()));
    assert_eq!(r.tornei(), 1);
    assert_eq!(r.coppie(), 0);
}

#[test]
fn totali_vuoti() {
    let r = Resoconto::new();
    let t = r.totali().unwrap();
    assert_eq!((t.tornei, t.coppie, t.incasso, t.carte), (0, 0, 0, 0));
    assert_eq!(somma_premi(&Vec::new()), 0);
}

#[test]
fn colonne_del_foglio() {
    assert_eq!(
        intestazione(),
        vec!["Giocatore", "Socio", "Primo", "Secondo", "Terzo", "Quarto", "Tot Premi", "Tot Tornei", "EV"]
    );
}

#[test]
fn selettori_validi() {
    let _ = TournamentSelector::new();
    let _ = TournamentPageSelector::new();
    let _ = PairSelector::new();
    let _ = TournamentDateSelector::new();
    let _ = CodeNameCircoloSelector::new();
}

#[test]
fn ennesimo_testo() {
    let t = vec!["a", "b", "c", "d"];
    assert_eq!(n_esimo(&t, 3), Some("d".to_string()));
    assert_eq!(n_esimo(&t, 4), None);
}

const LISTA: &str = "<html><body><table>\
<tr class=\"ALTbase20\"><td>1</td><td>x</td><td>y</td><td>T100</td><td><a href=\"t100.asp\"><b>Lun&nbsp;15&nbsp;gennaio</b></a></td></tr>\
<tr class=\"ALTbase20\"><td>2</td><td>x</td><td>T200</td></tr>\
<tr class=\"altro\"><td>3</td></tr>\
</table></body></html>";

#[test]
fn lista_dei_tornei() {
    let righe = righe_tornei(LISTA);
    assert_eq!(righe.len(), 2);
    assert_eq!(righe[0].codice.as_deref(), Some("T100"));
    let c = righe[0].collegamento.as_ref().unwrap();
    assert_eq!(c.data.as_deref(), Some("Lun&nbsp;15&nbsp;gennaio"));
    assert_eq!(c.indirizzo.as_deref(), Some("t100.asp"));
    assert_eq!(righe[1].codice, None);
    assert!(righe[1].collegamento.is_none());
    let i = periodo();
    assert_eq!(passo(valuta_riga(&righe[0], &i, 2024)), "scarica T100 t100.asp");
}

const CLASSIFICA: &str = "<html><body><table>\
<tr class=\"BGCLibere ALTbase25\"><td class=\"COLceleste\">11</td><td class=\"Capitalize POSbase0\">Rossi <span>[F0784]</span></td>\
<td class=\"COLceleste\">22</td><td class=\"Capitalize POSbase0\">Bianchi <span>[F0001]</span></td></tr>\
<tr class=\"BGCTDLibere ALTbase25\"><td class=\"COLceleste\"></td></tr>\
</table></body></html>";

#[test]
fn celle_della_classifica() {
    let righe = celle_coppie(CLASSIFICA);
    assert_eq!(righe.len(), 2);
    let attese: Vec<Option<String>> = vec![
        Some("11".to_string()),
        Some("Rossi ".to_string()),
        Some("[F0784]".to_string()),
        Some("22".to_string()),
        Some("Bianchi ".to_string()),
        Some("[F0001]".to_string()),
    ];
    assert_eq!(righe[0], attese);
    assert_eq!(righe[1], vec![None]);
}

const ATTRIBUTI: &str = "<table><tr class=\"ALTbase20\"><td>1</td><td>2</td><td>3</td><td>T7</td>\
<td><a href=\"t7.asp\"><b><i title=\"z\" lang=\"it\" class=\"a\">Lun</i>&nbsp;1&nbsp;luglio</b></a></td></tr></table>";

#[test]
fn attributi_nell_ordine_del_testo() {
    for _ in 0..5 {
        let righe = righe_tornei(ATTRIBUTI);
        let c = righe[0].collegamento.as_ref().unwrap();
        assert_eq!(
            c.data.as_deref(),
            Some("<i title=\"z\" lang=\"it\" class=\"a\">Lun</i>&nbsp;1&nbsp;luglio")
        );
    }
}
