use figbget::circolo::Circolo;
use figbget::giocatore::Player;
use figbget::torneo::Tournament;
use std::cmp::Ordering;

fn giocatore(nome: &str, socio: bool) -> Player {
    Player::new(nome.to_string(), socio)
}

#[test]
fn nuovo_giocatore_senza_piazzamenti() {
    let p = giocatore("Rossi Mario", true);
    assert_eq!(p.nome(), "Rossi Mario");
    assert!(p.socio);
    assert_eq!(p.giocati, 0);
    assert_eq!(p.primo, [0; 11]);
    assert_eq!(p.quarto, [0; 11]);
    assert_eq!(p.tot_premi(), 0);
}

#[test]
fn premi_per_posizione_e_coppie() {
    let mut p = giocatore("Bianchi", false);
    p.primo[0] = 1; // 6 pairs: 5
    p.primo[10] = 2; // 16 pairs: 15 each
    p.secondo[5] = 1; // 11 pairs: 5
    p.terzo[7] = 1; // 13 pairs: 5
    p.terzo[6] = 3; // 12 pairs: no prize for third
    p.quarto[3] = 4; // fourth place: no prize
    assert_eq!(p.tot_premi(), 45);
}

#[test]
fn premi_contati_modulo_256() {
    let mut p = giocatore("Verdi", false);
    p.primo[0] = 256;
    assert_eq!(p.tot_premi(), 0);
    p.primo[0] = 257;
    assert_eq!(p.tot_premi(), 5);
}

#[test]
fn premia_e_gioca() {
    let mut p = giocatore("Neri", true);
    p.premia(0, 6);
    p.premia(1, 16);
    p.premia(2, 11);
    p.premia(3, 7);
    p.premia(4, 7);
    p.premia(9, 3);
    p.gioca();
    p.gioca();
    assert_eq!(p.primo[0], 1);
    assert_eq!(p.secondo[10], 1);
    assert_eq!(p.terzo[5], 1);
    assert_eq!(p.quarto[1], 1);
    assert_eq!(p.giocati, 2);
    assert_eq!(p.tot_premi(), 5 + 5);
}

#[test]
fn record_di_un_giocatore() {
    let mut p = giocatore("Rossi Mario", true);
    p.primo[0] = 1;
    p.primo[10] = 1;
    p.secondo[5] = 1;
    p.terzo[7] = 1;
    p.giocati = 3;
    assert_eq!(p.tot_premi(), 30);
    assert_eq!(p.as_record("5.00"), "Rossi Mario, Yes, 2, 1, 1, 0, 3, 30, 5.00");
    assert_eq!(p.valore_atteso(), (15, 3));
    assert_eq!(p.piazzamenti(), (2, 1, 1, 0));
    assert_eq!(p.socio_testo(), "Yes");
    let q = giocatore("Gialli", false);
    assert_eq!(q.as_record("NaN"), "Gialli, No, 0, 0, 0, 0, 0, 0, NaN");
    assert_eq!(q.valore_atteso(), (0, 0));
    assert_eq!(q.socio_testo(), "No");
}

#[test]
fn valore_atteso_negativo() {
    let mut p = giocatore("Blu", false);
    p.giocati = 4;
    p.primo[4] = 1;
    assert_eq!(p.valore_atteso(), (10 - 20, 4));
}

#[test]
fn copia_di_un_giocatore() {
    let mut p = giocatore("Viola", true);
    p.premia(0, 8);
    p.gioca();
    let q = p.copia();
    assert_eq!(q.nome(), "Viola");
    assert_eq!(q.primo, p.primo);
    assert_eq!(q.giocati, 1);
    assert!(q.socio);
}

#[test]
fn piazzamento_ammesso_solo_entro_i_limiti() {
    let mut p = giocatore("Rosa", false);
    assert!(p.piazzamento_ammesso(0, 6));
    assert!(p.piazzamento_ammesso(3, 16));
    assert!(!p.piazzamento_ammesso(0, 5));
    assert!(!p.piazzamento_ammesso(2, 17));
    assert!(p.piazzamento_ammesso(4, 3));
    p.primo[0] = u32::MAX;
    assert!(!p.piazzamento_ammesso(0, 6));
    assert!(p.piazzamento_ammesso(1, 6));
    p.giocati = u32::MAX;
    assert!(!p.piazzamento_ammesso(5, 6));
}

#[test]
fn ordine_dei_giocatori() {
    let a = giocatore("Zeta", true);
    let b = giocatore("Alfa", false);
    let c = giocatore("Beta", false);
    let d = giocatore("Beta", false);
    assert!(a.precede(&b));
    assert!(!b.precede(&a));
    assert!(b.precede(&c));
    assert!(!c.precede(&d));
    assert_eq!(a.confronta(&b), Ordering::Less);
    assert_eq!(c.confronta(&b), Ordering::Greater);
    assert_eq!(c.confronta(&d), Ordering::Equal);
    assert!(c.stesso_nome(&d));
    assert!(!c.stesso_nome(&b));
    let e = giocatore("Bet", false);
    assert!(e.precede(&c));
    let f = giocatore("Ärgern", false);
    assert!(a.precede(&f));
    assert!(c.precede(&f));
}

#[test]
fn circolo_inserisce_una_volta() {
    let mut c = Circolo::new();
    assert_eq!(c.len(), 0);
    c.presente_o_inserisci("123", "Rossi", true);
    c.presente_o_inserisci("456", "Bianchi", false);
    c.presente_o_inserisci("123", "Altro", false);
    assert_eq!(c.len(), 2);
    let r = c.get("123").unwrap();
    assert_eq!(r.nome(), "Rossi");
    assert!(r.socio);
    assert!(c.get("789").is_none());
    let copia = c.copia();
    assert_eq!(copia.len(), 2);
    assert_eq!(copia.get("456").unwrap().nome(), "Bianchi");
}

#[test]
fn circolo_registra_piazzamento() {
    let mut c = Circolo::new();
    c.presente_o_inserisci("1", "Uno", false);
    assert!(c.piazzamento_ammesso("1", 0, 6));
    assert!(!c.piazzamento_ammesso("2", 0, 6));
    c.registra_piazzamento("1", 0, 6);
    let p = c.get("1").unwrap();
    assert_eq!(p.primo[0], 1);
    assert_eq!(p.giocati, 1);
}

#[test]
fn giocatori_in_ordine_di_report() {
    let mut c = Circolo::new();
    c.presente_o_inserisci("1", "Verdi", false);
    c.presente_o_inserisci("2", "Rossi", true);
    c.presente_o_inserisci("3", "Bianchi", false);
    c.presente_o_inserisci("4", "Argento", true);
    let nomi: Vec<&str> = c.giocatori_ordinati().iter().map(|p| p.nome()).collect();
    assert_eq!(nomi, vec!["Argento", "Rossi", "Bianchi", "Verdi"]);
}

fn torneo_di(coppie: usize) -> (Tournament, Circolo) {
    let mut t = Tournament::new("T1");
    let mut c = Circolo::new();
    for i in 0..coppie {
        let a = format!("A{}", i);
        let b = format!("B{}", i);
        c.presente_o_inserisci(&a, &a, false);
        c.presente_o_inserisci(&b, &b, true);
        t.aggiungi_coppia(&a, &b);
    }
    (t, c)
}

#[test]
fn dai_premi_a_sei_coppie() {
    let (t, mut c) = torneo_di(6);
    assert_eq!(t.partecipanti(), 6);
    assert!(t.premiazione_ammessa(&c));
    t.dai_premi(&mut c);
    assert_eq!(c.get("A0").unwrap().primo[0], 1);
    assert_eq!(c.get("B0").unwrap().primo[0], 1);
    assert_eq!(c.get("A1").unwrap().secondo[0], 1);
    assert_eq!(c.get("B2").unwrap().terzo[0], 1);
    assert_eq!(c.get("A3").unwrap().quarto[0], 1);
    assert_eq!(c.get("A5").unwrap().tot_premi(), 0);
    for i in 0..6 {
        assert_eq!(c.get(&format!("A{}", i)).unwrap().giocati, 1);
        assert_eq!(c.get(&format!("B{}", i)).unwrap().giocati, 1);
    }
    assert_eq!(c.get("A0").unwrap().tot_premi(), 5);
}

#[test]
fn dai_premi_a_sedici_coppie() {
    let (t, mut c) = torneo_di(16);
    assert!(t.premiazione_ammessa(&c));
    t.dai_premi(&mut c);
    assert_eq!(c.get("A0").unwrap().tot_premi(), 15);
    assert_eq!(c.get("A1").unwrap().tot_premi(), 5);
    assert_eq!(c.get("A2").unwrap().tot_premi(), 5);
    assert_eq!(c.get("A3").unwrap().tot_premi(), 0);
}

#[test]
fn premiazione_impossibile() {
    let (t, c) = torneo_di(3);
    assert!(!t.premiazione_ammessa(&c));
    let (t, c) = torneo_di(17);
    assert!(!t.premiazione_ammessa(&c));
    let (t, c) = torneo_di(0);
    assert!(t.premiazione_ammessa(&c));
    let mut t = Tournament::new("T2");
    let mut c = Circolo::new();
    for i in 0..6 {
        t.aggiungi_coppia(&format!("A{}", i), &format!("B{}", i));
        c.presente_o_inserisci(&format!("A{}", i), "x", false);
    }
    assert!(!t.premiazione_ammessa(&c));
}

#[test]
fn stesso_giocatore_due_volte() {
    let mut t = Tournament::new("T3");
    let mut c = Circolo::new();
    c.presente_o_inserisci("X", "X", false);
    for _ in 0..6 {
        t.aggiungi_coppia("X", "X");
    }
    t.dai_premi(&mut c);
    let x = c.get("X").unwrap();
    assert_eq!(x.giocati, 12);
    assert_eq!(x.primo[0], 2);
    assert_eq!(x.secondo[0], 2);
    assert_eq!(x.tot_premi(), 10);
}

#[test]
fn uguaglianza_e_ordine_degli_operatori() {
    let a = giocatore("Beta", false);
    let b = giocatore("Beta", true);
    let c = giocatore("Alfa", false);
    assert!(a == b);
    assert!(a != c);
    assert!(b < a);
    assert!(c < a);
    assert!(!(a < c));
    assert_eq!(a.partial_cmp(&c), Some(Ordering::Greater));
}

fn montepremi(c: &Circolo) -> (u128, u64) {
    let g = c.giocatori_ordinati();
    (figbget::resoconto::somma_premi(&g), g.iter().map(|p| p.giocati as u64).sum())
}

#[test]
fn montepremi_di_un_torneo() {
    for (n, atteso) in [(6usize, 10u128), (11, 30), (13, 40), (16, 50)] {
        let (t, mut c) = torneo_di(n);
        let (premi, giocati) = montepremi(&c);
        t.dai_premi(&mut c);
        let (premi_dopo, giocati_dopo) = montepremi(&c);
        assert_eq!(premi_dopo, premi + atteso);
        assert_eq!(giocati_dopo, giocati + 2 * n as u64);
    }
}

#[test]
fn premi_crescono_con_un_contatore() {
    let mut p = giocatore("Grigi", false);
    p.primo[4] = 3;
    p.terzo[2] = 1;
    let prima = p.tot_premi();
    p.primo[4] = 5;
    assert_eq!(p.tot_premi(), prima + 2 * 10);
    let ora = p.tot_premi();
    p.terzo[2] = 200;
    assert_eq!(p.tot_premi(), ora);
}
