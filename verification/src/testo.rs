//! Text helpers on the character view of strings: reading a `str` into
//! characters, building `String`s back, decimal numerals and splitting.

use vstd::prelude::*;

verus! {

/// Appends one character to a `String` (`String::push`).
#[verifier::external_body]
pub fn aggiungi_carattere(s: &mut String, c: char)
    ensures
        final(s)@ == old(s)@.push(c),
{
    s.push(c);
}

/// The characters of `s`, in order.
pub fn caratteri(s: &str) -> (v: Vec<char>)
    ensures
        v@ == s@,
{
    let n = s.unicode_len();
    let mut v: Vec<char> = Vec::new();
    let mut i: usize = 0;
    while i < n
        invariant
            n == s@.len(),
            i <= n,
            v@ == s@.subrange(0, i as int),
        decreases n - i,
    {
        v.push(s.get_char(i));
        i = i + 1;
    }
    v
}

/// The `String` whose characters are those of `v`.
pub fn da_caratteri(v: &Vec<char>) -> (s: String)
    ensures
        s@ == v@,
{
    let mut s = String::new();
    let mut i: usize = 0;
    while i < v.len()
        invariant
            i <= v.len(),
            s@ == v@.subrange(0, i as int),
        decreases v.len() - i,
    {
        aggiungi_carattere(&mut s, v[i]);
        i = i + 1;
    }
    s
}

} // verus!

verus! {

/// The character of a decimal digit.
pub open spec fn cifra(d: nat) -> char {
    if d == 0 { '0' }
    else if d == 1 { '1' }
    else if d == 2 { '2' }
    else if d == 3 { '3' }
    else if d == 4 { '4' }
    else if d == 5 { '5' }
    else if d == 6 { '6' }
    else if d == 7 { '7' }
    else if d == 8 { '8' }
    else { '9' }
}

/// The value of a decimal digit character, if it is one.
pub open spec fn valore_cifra(c: char) -> Option<nat> {
    if c == '0' { Some(0) }
    else if c == '1' { Some(1) }
    else if c == '2' { Some(2) }
    else if c == '3' { Some(3) }
    else if c == '4' { Some(4) }
    else if c == '5' { Some(5) }
    else if c == '6' { Some(6) }
    else if c == '7' { Some(7) }
    else if c == '8' { Some(8) }
    else if c == '9' { Some(9) }
    else { None }
}

/// The decimal numeral of `n`: no sign, no leading zeros.
pub open spec fn numerale(n: nat) -> Seq<char>
    decreases n,
{
    if n < 10 {
        seq![cifra(n)]
    } else {
        numerale(n / 10).push(cifra(n % 10))
    }
}

fn cifra_exec(d: u32) -> (c: char)
    requires
        d < 10,
    ensures
        c == cifra(d as nat),
{
    if d == 0 { '0' }
    else if d == 1 { '1' }
    else if d == 2 { '2' }
    else if d == 3 { '3' }
    else if d == 4 { '4' }
    else if d == 5 { '5' }
    else if d == 6 { '6' }
    else if d == 7 { '7' }
    else if d == 8 { '8' }
    else { '9' }
}

/// Appends the decimal numeral of `n` to `s`.
pub fn aggiungi_numerale(s: &mut String, n: u32)
    ensures
        final(s)@ == old(s)@ + numerale(n as nat),
    decreases n,
{
    if n < 10 {
        aggiungi_carattere(s, cifra_exec(n));
        assert(numerale(n as nat) =~= seq![cifra(n as nat)]);
    } else {
        aggiungi_numerale(s, n / 10);
        aggiungi_carattere(s, cifra_exec(n % 10));
    }
}

/// The decimal numeral of `n` as a `String`.
pub fn decimale(n: u32) -> (s: String)
    ensures
        s@ == numerale(n as nat),
{
    let mut s = String::new();
    aggiungi_numerale(&mut s, n);
    assert(s@ =~= numerale(n as nat));
    s
}

} // verus!

verus! {

/// The value of a sequence of decimal digits, or `None` when a character
/// is not a digit (the empty sequence has value 0).
pub open spec fn valore_cifre(s: Seq<char>) -> Option<nat>
    decreases s.len(),
{
    if s.len() == 0 {
        Some(0)
    } else {
        match (valore_cifre(s.drop_last()), valore_cifra(s.last())) {
            (Some(v), Some(d)) => Some(v * 10 + d),
            _ => None,
        }
    }
}

/// What `str::parse::<u32>` gives: an optional `+`, then at least one
/// ASCII digit, with a value that fits in a `u32`.
pub open spec fn leggi_u32(s: Seq<char>) -> Option<u32> {
    let cifre = if s.len() > 0 && s[0] == '+' { s.drop_first() } else { s };
    if cifre.len() == 0 {
        None
    } else {
        match valore_cifre(cifre) {
            Some(v) => if v <= u32::MAX { Some(v as u32) } else { None },
            None => None,
        }
    }
}

proof fn lemma_valore_prefisso(s: Seq<char>, i: int)
    requires
        0 <= i <= s.len(),
        valore_cifre(s) is Some,
    ensures
        valore_cifre(s.take(i)) is Some,
        valore_cifre(s.take(i))->0 <= valore_cifre(s)->0,
    decreases s.len() - i,
{
    if i < s.len() {
        lemma_valore_prefisso(s, i + 1);
        assert(s.take(i + 1).drop_last() =~= s.take(i));
    } else {
        assert(s.take(i) =~= s);
    }
}

fn valore_carattere(c: char) -> (r: Option<u32>)
    ensures
        r matches Some(d) ==> valore_cifra(c) == Some(d as nat),
        r is None ==> valore_cifra(c) is None,
{
    if c == '0' { Some(0) }
    else if c == '1' { Some(1) }
    else if c == '2' { Some(2) }
    else if c == '3' { Some(3) }
    else if c == '4' { Some(4) }
    else if c == '5' { Some(5) }
    else if c == '6' { Some(6) }
    else if c == '7' { Some(7) }
    else if c == '8' { Some(8) }
    else if c == '9' { Some(9) }
    else { None }
}

/// Reads a `u32` as `str::parse::<u32>` does.
pub fn leggi_numero(s: &Vec<char>) -> (r: Option<u32>)
    ensures
        r == leggi_u32(s@),
{
    let inizio: usize = if s.len() > 0 && s[0] == '+' { 1 } else { 0 };
    let ghost cifre = s@.subrange(inizio as int, s@.len() as int);
    assert(cifre =~= (if s@.len() > 0 && s@[0] == '+' { s@.drop_first() } else { s@ }));
    if inizio == s.len() {
        return None;
    }
    let mut acc: u32 = 0;
    let mut i: usize = inizio;
    while i < s.len()
        invariant
            inizio <= i <= s.len(),
            cifre == s@.subrange(inizio as int, s@.len() as int),
            cifre == (if s@.len() > 0 && s@[0] == '+' { s@.drop_first() } else { s@ }),
            cifre.len() > 0,
            valore_cifre(cifre.take(i - inizio)) == Some(acc as nat),
        decreases s.len() - i,
    {
        let ghost k = i - inizio;
        assert(cifre.take(k + 1).drop_last() =~= cifre.take(k));
        assert(cifre.take(k + 1).last() == s@[i as int]);
        match valore_carattere(s[i]) {
            None => {
                assert(valore_cifre(cifre.take(k + 1)) is None);
                proof {
                    if valore_cifre(cifre) is Some {
                        lemma_valore_prefisso(cifre, k + 1);
                    }
                }
                return None;
            },
            Some(d) => {
                assert(valore_cifre(cifre.take(k + 1)) == Some((acc * 10 + d) as nat));
                if acc > 429496729 || (acc == 429496729 && d > 5) {
                    proof {
                        if valore_cifre(cifre) is Some {
                            lemma_valore_prefisso(cifre, k + 1);
                        }
                    }
                    return None;
                }
                acc = acc * 10 + d;
            },
        }
        i = i + 1;
    }
    assert(cifre.take(s@.len() - inizio) =~= cifre);
    Some(acc)
}

/// A numeral written by `decimale` reads back as the same number.
pub proof fn lemma_numerale_si_rilegge(n: u32)
    ensures
        leggi_u32(numerale(n as nat)) == Some(n),
{
    lemma_valore_numerale(n as nat);
    lemma_numerale_non_vuoto(n as nat);
}

proof fn lemma_numerale_non_vuoto(n: nat)
    ensures
        numerale(n).len() >= 1,
        numerale(n)[0] != '+',
    decreases n,
{
    if n >= 10 {
        lemma_numerale_non_vuoto(n / 10);
    }
}

proof fn lemma_valore_numerale(n: nat)
    ensures
        valore_cifre(numerale(n)) == Some(n),
    decreases n,
{
    if n < 10 {
        let s = numerale(n);
        assert(s.drop_last() =~= Seq::<char>::empty());
        assert(valore_cifre(Seq::<char>::empty()) == Some(0nat));
        lemma_cifra_valore(n);
    } else {
        lemma_valore_numerale(n / 10);
        let s = numerale(n);
        assert(s.drop_last() =~= numerale(n / 10));
        assert(s.last() == cifra(n % 10));
        lemma_cifra_valore(n % 10);
    }
}

proof fn lemma_cifra_valore(d: nat)
    requires
        d < 10,
    ensures
        valore_cifra(cifra(d)) == Some(d),
{
}

} // verus!

verus! {

/// `sep` occurs in `s` at position `i`.
pub open spec fn occorre(s: Seq<char>, sep: Seq<char>, i: int) -> bool {
    &&& 0 <= i
    &&& i + sep.len() <= s.len()
    &&& s.subrange(i, i + sep.len()) == sep
}

/// The first position at or after `da` where `sep` occurs in `s`, or -1.
pub open spec fn prima_occorrenza(s: Seq<char>, sep: Seq<char>, da: int) -> int
    decreases s.len() + 1 - da,
{
    if da < 0 || da + sep.len() > s.len() {
        -1
    } else if occorre(s, sep, da) {
        da
    } else {
        prima_occorrenza(s, sep, da + 1)
    }
}

/// The first occurrence at or after `da` is one, and none comes before it.
pub proof fn lemma_prima_occorrenza(s: Seq<char>, sep: Seq<char>, da: int)
    requires
        0 <= da,
    ensures
        prima_occorrenza(s, sep, da) == -1 || (da <= prima_occorrenza(s, sep, da) && occorre(
            s,
            sep,
            prima_occorrenza(s, sep, da),
        )),
        forall|j: int| da <= j && (prima_occorrenza(s, sep, da) == -1 || j < prima_occorrenza(s, sep, da))
            ==> !occorre(s, sep, j),
    decreases s.len() + 1 - da,
{
    if da + sep.len() <= s.len() && !occorre(s, sep, da) {
        lemma_prima_occorrenza(s, sep, da + 1);
    }
}

/// The pieces of `s` from position `da` on, between the occurrences of
/// `sep`, taken from left to right without overlap.
pub open spec fn dividi_da(s: Seq<char>, sep: Seq<char>, da: int) -> Seq<Seq<char>>
    decreases s.len() - da,
{
    let i = prima_occorrenza(s, sep, da);
    if sep.len() == 0 || da < 0 || da > s.len() || i < 0 {
        seq![s.subrange(da, s.len() as int)]
    } else {
        proof {
            lemma_prima_occorrenza(s, sep, da);
        }
        seq![s.subrange(da, i)] + dividi_da(s, sep, i + sep.len())
    }
}

/// What `str::split` gives for a non-empty pattern `sep`: the pieces of `s`
/// between the occurrences of `sep`.
pub open spec fn dividi(s: Seq<char>, sep: Seq<char>) -> Seq<Seq<char>> {
    dividi_da(s, sep, 0)
}

/// The pieces joined again, with `sep` between each two.
pub open spec fn unisci(pezzi: Seq<Seq<char>>, sep: Seq<char>) -> Seq<char>
    decreases pezzi.len(),
{
    if pezzi.len() == 0 {
        Seq::empty()
    } else if pezzi.len() == 1 {
        pezzi[0]
    } else {
        pezzi[0] + sep + unisci(pezzi.drop_first(), sep)
    }
}

proof fn lemma_dividi_da_ricompone(s: Seq<char>, sep: Seq<char>, da: int)
    requires
        sep.len() > 0,
        0 <= da <= s.len(),
    ensures
        dividi_da(s, sep, da).len() >= 1,
        unisci(dividi_da(s, sep, da), sep) == s.subrange(da, s.len() as int),
    decreases s.len() - da,
{
    let i = prima_occorrenza(s, sep, da);
    lemma_prima_occorrenza(s, sep, da);
    if i >= 0 {
        lemma_dividi_da_ricompone(s, sep, i + sep.len());
        let pezzi = dividi_da(s, sep, da);
        let resto = dividi_da(s, sep, i + sep.len());
        assert(pezzi == seq![s.subrange(da, i)] + resto);
        assert(pezzi.drop_first() =~= resto);
        assert(s.subrange(i, i + sep.len()) == sep);
        assert(s.subrange(da, s.len() as int) =~= s.subrange(da, i) + sep + s.subrange(
            i + sep.len(),
            s.len() as int,
        ));
    }
}

proof fn lemma_prima_qui(s: Seq<char>, sep: Seq<char>, da: int, i: int)
    requires
        0 <= da <= i,
        sep.len() > 0,
        occorre(s, sep, i),
        forall|j: int| da <= j < i ==> s[j] != sep[0],
    ensures
        prima_occorrenza(s, sep, da) == i,
    decreases i - da,
{
    if da < i {
        assert(s.subrange(da, da + sep.len())[0] == s[da]);
        lemma_prima_qui(s, sep, da + 1, i);
    }
}

proof fn lemma_nessuna_occorrenza(s: Seq<char>, sep: Seq<char>, da: int)
    requires
        0 <= da <= s.len(),
        sep.len() > 0,
        forall|j: int| da <= j < s.len() ==> s[j] != sep[0],
    ensures
        prima_occorrenza(s, sep, da) == -1,
    decreases s.len() + 1 - da,
{
    if da + sep.len() <= s.len() {
        assert(s.subrange(da, da + sep.len())[0] == s[da]);
        lemma_nessuna_occorrenza(s, sep, da + 1);
    }
}

/// Three pieces joined by a separator split back into those three pieces,
/// when no piece holds the separator's first character.
pub proof fn lemma_dividi_tre(p0: Seq<char>, p1: Seq<char>, p2: Seq<char>, sep: Seq<char>)
    requires
        sep.len() > 0,
        forall|i: int| 0 <= i < p0.len() ==> p0[i] != sep[0],
        forall|i: int| 0 <= i < p1.len() ==> p1[i] != sep[0],
        forall|i: int| 0 <= i < p2.len() ==> p2[i] != sep[0],
    ensures
        dividi(p0 + sep + p1 + sep + p2, sep) == seq![p0, p1, p2],
{
    let s = p0 + sep + p1 + sep + p2;
    let l = sep.len() as int;
    let i1 = p0.len() as int;
    let i2 = i1 + l + p1.len();
    let i3 = i2 + l;
    assert(s.subrange(i1, i1 + l) =~= sep);
    assert(s.subrange(i2, i2 + l) =~= sep);
    assert(forall|j: int| 0 <= j < i1 ==> s[j] == p0[j]);
    lemma_prima_qui(s, sep, 0, i1);
    assert(forall|j: int| i1 + l <= j < i2 ==> s[j] == p1[j - i1 - l]);
    lemma_prima_qui(s, sep, i1 + l, i2);
    assert(forall|j: int| i3 <= j < s.len() ==> s[j] == p2[j - i3]);
    lemma_nessuna_occorrenza(s, sep, i3);
    assert(s.subrange(0, i1) =~= p0);
    assert(s.subrange(i1 + l, i2) =~= p1);
    assert(s.subrange(i3, s.len() as int) =~= p2);
    assert(dividi_da(s, sep, i3) == seq![p2]);
    assert(dividi_da(s, sep, i1 + l) =~= seq![p1, p2]);
    assert(dividi_da(s, sep, 0) =~= seq![p0, p1, p2]);
}

/// A decimal numeral is made of digits only.
pub proof fn lemma_numerale_di_cifre(n: nat)
    ensures
        forall|i: int| 0 <= i < numerale(n).len() ==> valore_cifra(#[trigger] numerale(n)[i]) is Some,
    decreases n,
{
    if n >= 10 {
        lemma_numerale_di_cifre(n / 10);
        lemma_cifra_valore(n % 10);
        assert forall|i: int| 0 <= i < numerale(n).len() implies valore_cifra(#[trigger] numerale(n)[i]) is Some by {
            if i < numerale(n / 10).len() {
                assert(numerale(n)[i] == numerale(n / 10)[i]);
            }
        }
    } else {
        lemma_cifra_valore(n);
    }
}

/// Joining the pieces of a split with the separator gives back the text.
pub proof fn lemma_dividi_ricompone(s: Seq<char>, sep: Seq<char>)
    requires
        sep.len() > 0,
    ensures
        unisci(dividi(s, sep), sep) == s,
{
    lemma_dividi_da_ricompone(s, sep, 0);
    assert(s.subrange(0, s.len() as int) =~= s);
}

/// Whether `sep` occurs in `s` at position `i`.
fn occorre_exec(s: &Vec<char>, sep: &Vec<char>, i: usize) -> (r: bool)
    ensures
        r == occorre(s@, sep@, i as int),
{
    if sep.len() > s.len() || i > s.len() - sep.len() {
        return false;
    }
    let mut j: usize = 0;
    while j < sep.len()
        invariant
            i + sep.len() <= s.len(),
            j <= sep.len(),
            forall|k: int| 0 <= k < j ==> s@[i + k] == sep@[k],
        decreases sep.len() - j,
    {
        if s[i + j] != sep[j] {
            assert(s@.subrange(i as int, i + sep.len())[j as int] != sep@[j as int]);
            return false;
        }
        j = j + 1;
    }
    assert(s@.subrange(i as int, i + sep.len()) =~= sep@);
    true
}

/// The first position at or after `da` where `sep` occurs in `s`.
fn prima_occorrenza_exec(s: &Vec<char>, sep: &Vec<char>, da: usize) -> (r: Option<usize>)
    requires
        sep.len() > 0,
    ensures
        r matches Some(i) ==> i == prima_occorrenza(s@, sep@, da as int),
        r is None ==> prima_occorrenza(s@, sep@, da as int) == -1,
{
    let mut i = da;
    while i <= s.len() && sep.len() <= s.len() - i
        invariant
            da <= i,
            sep.len() > 0,
            prima_occorrenza(s@, sep@, da as int) == prima_occorrenza(s@, sep@, i as int),
        decreases s.len() + 1 - i,
    {
        if occorre_exec(s, sep, i) {
            return Some(i);
        }
        i = i + 1;
    }
    None
}

/// Copies the characters of `s` from `da` to `a`.
pub fn tratto(s: &Vec<char>, da: usize, a: usize) -> (r: Vec<char>)
    requires
        da <= a <= s.len(),
    ensures
        r@ == s@.subrange(da as int, a as int),
{
    let mut r: Vec<char> = Vec::new();
    let mut i = da;
    while i < a
        invariant
            da <= i <= a <= s.len(),
            r@ == s@.subrange(da as int, i as int),
        decreases a - i,
    {
        r.push(s[i]);
        i = i + 1;
    }
    r
}

/// The pieces of `s` between the occurrences of `sep`, as `str::split`.
pub fn dividi_exec(s: &Vec<char>, sep: &Vec<char>) -> (r: Vec<Vec<char>>)
    requires
        sep.len() > 0,
    ensures
        r@.map_values(|v: Vec<char>| v@) == dividi(s@, sep@),
{
    let mut r: Vec<Vec<char>> = Vec::new();
    let mut da: usize = 0;
    loop
        invariant
            sep.len() > 0,
            da <= s.len(),
            r@.map_values(|v: Vec<char>| v@) + dividi_da(s@, sep@, da as int) == dividi(s@, sep@),
        decreases s.len() - da,
    {
        let ghost prima = r@;
        match prima_occorrenza_exec(s, sep, da) {
            None => {
                let pezzo = tratto(s, da, s.len());
                r.push(pezzo);
                assert(r@.map_values(|v: Vec<char>| v@) =~= prima.map_values(|v: Vec<char>| v@)
                    + dividi_da(s@, sep@, da as int));
                return r;
            },
            Some(i) => {
                proof {
                    lemma_prima_occorrenza(s@, sep@, da as int);
                }
                let pezzo = tratto(s, da, i);
                r.push(pezzo);
                assert(r@.map_values(|v: Vec<char>| v@) + dividi_da(s@, sep@, (i + sep.len()) as int)
                    =~= prima.map_values(|v: Vec<char>| v@) + dividi_da(s@, sep@, da as int));
                da = i + sep.len();
            },
        }
    }
}

/// Whether two texts are equal.
pub fn uguali(a: &Vec<char>, b: &Vec<char>) -> (r: bool)
    ensures
        r == (a@ == b@),
{
    if a.len() != b.len() {
        return false;
    }
    let mut i: usize = 0;
    while i < a.len()
        invariant
            a.len() == b.len(),
            i <= a.len(),
            forall|k: int| 0 <= k < i ==> a@[k] == b@[k],
        decreases a.len() - i,
    {
        if a[i] != b[i] {
            return false;
        }
        i = i + 1;
    }
    assert(a@ =~= b@);
    true
}

} // verus!

verus! {

/// The characters with the Unicode property `White_Space`.
pub open spec fn spazio_bianco(c: char) -> bool {
    let n = c as int;
    ||| 9 <= n <= 13
    ||| n == 32
    ||| n == 0x85
    ||| n == 0xa0
    ||| n == 0x1680
    ||| 0x2000 <= n <= 0x200a
    ||| n == 0x2028
    ||| n == 0x2029
    ||| n == 0x202f
    ||| n == 0x205f
    ||| n == 0x3000
}

/// Whether `c` has the Unicode property `White_Space`, as
/// `char::is_whitespace` tells.
pub fn e_spazio(c: char) -> (r: bool)
    ensures
        r == spazio_bianco(c),
{
    ('\u{9}' <= c && c <= '\u{d}') || c == ' ' || c == '\u{85}' || c == '\u{a0}' || c == '\u{1680}'
        || ('\u{2000}' <= c && c <= '\u{200a}') || c == '\u{2028}' || c == '\u{2029}' || c == '\u{202f}'
        || c == '\u{205f}' || c == '\u{3000}'
}

/// `s` without its leading white space.
pub open spec fn togli_iniziali(s: Seq<char>) -> Seq<char>
    decreases s.len(),
{
    if s.len() > 0 && spazio_bianco(s[0]) {
        togli_iniziali(s.drop_first())
    } else {
        s
    }
}

/// `s` without its trailing white space.
pub open spec fn togli_finali(s: Seq<char>) -> Seq<char>
    decreases s.len(),
{
    if s.len() > 0 && spazio_bianco(s.last()) {
        togli_finali(s.drop_last())
    } else {
        s
    }
}

/// What `str::trim` gives: `s` without leading and trailing white space.
pub open spec fn senza_spazi(s: Seq<char>) -> Seq<char> {
    togli_finali(togli_iniziali(s))
}

/// The characters of `s` without leading and trailing white space.
pub fn pulisci(s: &Vec<char>) -> (r: Vec<char>)
    ensures
        r@ == senza_spazi(s@),
{
    let n = s.len();
    let mut i: usize = 0;
    assert(s@.subrange(0, n as int) =~= s@);
    while i < n && e_spazio(s[i])
        invariant
            n == s.len(),
            i <= n,
            togli_iniziali(s@) == togli_iniziali(s@.subrange(i as int, n as int)),
        decreases n - i,
    {
        assert(s@.subrange(i as int, n as int).drop_first() =~= s@.subrange(i as int + 1, n as int));
        i = i + 1;
    }
    assert(togli_iniziali(s@.subrange(i as int, n as int)) == s@.subrange(i as int, n as int));
    let mut j: usize = n;
    while j > i && e_spazio(s[j - 1])
        invariant
            n == s.len(),
            i <= j <= n,
            togli_finali(s@.subrange(i as int, n as int)) == togli_finali(s@.subrange(i as int, j as int)),
        decreases j,
    {
        assert(s@.subrange(i as int, j as int).drop_last() =~= s@.subrange(i as int, j as int - 1));
        j = j - 1;
    }
    assert(togli_finali(s@.subrange(i as int, j as int)) == s@.subrange(i as int, j as int));
    tratto(s, i, j)
}

} // verus!
