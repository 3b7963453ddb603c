use figbget::data::{mese_da_nome, parse_date, Data};
use figbget::intervallo::Intervallo;
use figbget::testo::{caratteri, da_caratteri, decimale, dividi_exec, leggi_numero, pulisci, tratto, uguali};
use std::cmp::Ordering;

fn v(s: &str) -> Vec<char> {
    s.chars().collect()
}

#[test]
fn caratteri_e_ritorno() {
    assert_eq!(caratteri("àbc"), vec!['à', 'b', 'c']);
    assert_eq!(da_caratteri(&vec!['x', 'é']), "xé");
    assert_eq!(tratto(&v("abcdef"), 1, 4), v("bcd"));
    assert!(uguali(&v("abc"), &v("abc")));
    assert!(!uguali(&v("abc"), &v("abd")));
    assert!(!uguali(&v("ab"), &v("abc")));
}

#[test]
fn numerali_decimali() {
    assert_eq!(decimale(0), "0");
    assert_eq!(decimale(7), "7");
    assert_eq!(decimale(1234), "1234");
    assert_eq!(decimale(u32::MAX), "4294967295");
}

#[test]
fn lettura_di_numeri() {
    assert_eq!(leggi_numero(&v("15")), Some(15));
    assert_eq!(leggi_numero(&v("007")), Some(7));
    assert_eq!(leggi_numero(&v("+12")), Some(12));
    assert_eq!(leggi_numero(&v("4294967295")), Some(u32::MAX));
    assert_eq!(leggi_numero(&v("4294967296")), None);
    assert_eq!(leggi_numero(&v("99999999999")), None);
    assert_eq!(leggi_numero(&v("")), None);
    assert_eq!(leggi_numero(&v("+")), None);
    assert_eq!(leggi_numero(&v("-1")), None);
    assert_eq!(leggi_numero(&v("12a")), None);
    assert_eq!(leggi_numero(&v(" 12")), None);
    for s in ["15", "+3", "", "+", "-0", "1x", "4294967296", "0042"] {
        assert_eq!(leggi_numero(&v(s)), s.parse::<u32>().ok());
    }
}

#[test]
fn numerale_si_rilegge() {
    for n in [0u32, 9, 10, 99, 100, 65535, u32::MAX] {
        assert_eq!(leggi_numero(&caratteri(&decimale(n))), Some(n));
    }
}

#[test]
fn spazi_tolti_come_trim() {
    for s in ["  ciao \n", "\t\u{a0}x y\u{3000}", "", "   ", "nessuno", "\u{2028}a\u{85}"] {
        assert_eq!(pulisci(&v(s)), v(s.trim()));
    }
}

#[test]
fn divisione_come_split() {
    let sep = v("&nbsp;");
    for s in ["Lun&nbsp;15&nbsp;gennaio", "", "&nbsp;", "a&nbsp;&nbsp;b", "&nbsp&nbsp;x&nbsp;", "niente"] {
        let attesi: Vec<Vec<char>> = s.split("&nbsp;").map(v).collect();
        assert_eq!(dividi_exec(&v(s), &sep), attesi);
    }
}

#[test]
fn mesi_italiani() {
    assert_eq!(mese_da_nome(&v("gennaio")), Some(1));
    assert_eq!(mese_da_nome(&v("maggio")), Some(5));
    assert_eq!(mese_da_nome(&v("dicembre")), Some(12));
    assert_eq!(mese_da_nome(&v("Gennaio")), None);
    assert_eq!(mese_da_nome(&v("january")), None);
}

#[test]
fn date_esistenti() {
    assert!(Data::new(2023, 2, 29).is_none());
    assert!(Data::new(2024, 2, 29).is_some());
    assert!(Data::new(1900, 2, 29).is_none());
    assert!(Data::new(2000, 2, 29).is_some());
    assert!(Data::new(2024, 13, 1).is_none());
    assert!(Data::new(2024, 0, 1).is_none());
    assert!(Data::new(2024, 4, 31).is_none());
    assert!(Data::new(2024, 4, 0).is_none());
    assert!(Data::new(262142, 12, 31).is_some());
    assert!(Data::new(262143, 1, 1).is_none());
    assert!(Data::new(-262143, 1, 1).is_some());
    assert!(Data::new(-262144, 12, 31).is_none());
    let d = Data::new(2024, 3, 15).unwrap();
    assert_eq!((d.anno(), d.mese(), d.giorno()), (2024, 3, 15));
}

#[test]
fn date_dal_testo() {
    let d = parse_date("Lun&nbsp;15&nbsp;gennaio".to_string(), 2024).unwrap();
    assert_eq!((d.anno(), d.mese(), d.giorno()), (2024, 1, 15));
    assert!(parse_date("Gio&nbsp;29&nbsp;febbraio".to_string(), 2023).is_none());
    assert!(parse_date("Gio&nbsp;29&nbsp;febbraio".to_string(), 2024).is_some());
    assert!(parse_date("Lun&nbsp;15&nbsp;brumaio".to_string(), 2024).is_none());
    assert!(parse_date("Lun&nbsp;quindici&nbsp;gennaio".to_string(), 2024).is_none());
    assert!(parse_date("15&nbsp;gennaio".to_string(), 2024).is_none());
    assert!(parse_date("Lun&nbsp;15&nbsp;gennaio&nbsp;2024".to_string(), 2024).is_none());
    assert!(parse_date("Lun&nbsp;32&nbsp;gennaio".to_string(), 2024).is_none());
    let d = parse_date("x&nbsp;+3&nbsp;marzo".to_string(), 2024).unwrap();
    assert_eq!((d.mese(), d.giorno()), (3, 3));
}

#[test]
fn data_in_un_altro_anno() {
    let d = parse_date("Dom&nbsp;1&nbsp;ottobre".to_string(), 1999).unwrap();
    assert_eq!((d.anno(), d.mese(), d.giorno()), (1999, 10, 1));
    assert!(parse_date("nessuna data".to_string(), 1999).is_none());
    assert!(parse_date("Dom&nbsp;1&nbsp;ottobre".to_string(), 262143).is_none());
}

#[test]
fn comprende_intervallo() {
    let i = Intervallo::new(Data::new(2024, 1, 10).unwrap(), Data::new(2024, 3, 5).unwrap());
    assert_eq!(i.comprende(Data::new(2024, 1, 9).unwrap()), Ordering::Less);
    assert_eq!(i.comprende(Data::new(2023, 12, 31).unwrap()), Ordering::Less);
    assert_eq!(i.comprende(Data::new(2024, 1, 10).unwrap()), Ordering::Equal);
    assert_eq!(i.comprende(Data::new(2024, 2, 29).unwrap()), Ordering::Equal);
    assert_eq!(i.comprende(Data::new(2024, 3, 5).unwrap()), Ordering::Equal);
    assert_eq!(i.comprende(Data::new(2024, 3, 6).unwrap()), Ordering::Greater);
    assert_eq!(i.comprende(Data::new(2025, 1, 1).unwrap()), Ordering::Greater);
    let vuoto = Intervallo::new(Data::new(2024, 5, 1).unwrap(), Data::new(2024, 4, 1).unwrap());
    assert_eq!(vuoto.comprende(Data::new(2024, 4, 15).unwrap()), Ordering::Less);
    assert_eq!(vuoto.comprende(Data::new(2024, 5, 2).unwrap()), Ordering::Greater);
}

#[test]
fn prima_di() {
    let a = Data::new(2024, 1, 10).unwrap();
    let b = Data::new(2024, 1, 11).unwrap();
    assert!(a.prima_di(&b));
    assert!(!b.prima_di(&a));
    assert!(!a.prima_di(&a));
}
