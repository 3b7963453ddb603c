//! The order of the report: members of the club first, then by name in
//! the order of `str` (character by character, by code point; a prefix
//! comes first).

use vstd::prelude::*;
use crate::giocatore::{GiocatoreV, Player};
use crate::testo::caratteri;

verus! {

/// `a` comes strictly before `b` in the order of `str`.
pub open spec fn minore_testo(a: Seq<char>, b: Seq<char>) -> bool
    decreases a.len(),
{
    if a.len() == 0 {
        b.len() > 0
    } else if b.len() == 0 {
        false
    } else if a[0] != b[0] {
        (a[0] as int) < (b[0] as int)
    } else {
        minore_testo(a.drop_first(), b.drop_first())
    }
}

/// Player `a` comes strictly before player `b` in the report.
pub open spec fn precede(a: GiocatoreV, b: GiocatoreV) -> bool {
    if a.socio != b.socio {
        a.socio
    } else {
        minore_testo(a.nome, b.nome)
    }
}

/// At the first position where two texts differ, the text with the
/// character of smaller code point comes first.
pub proof fn lemma_minore_prima_differenza(a: Seq<char>, b: Seq<char>, i: int)
    requires
        0 <= i < a.len(),
        i < b.len(),
        a.take(i) == b.take(i),
        a[i] != b[i],
    ensures
        minore_testo(a, b) <==> (a[i] as int) < (b[i] as int),
        minore_testo(b, a) <==> (b[i] as int) < (a[i] as int),
    decreases i,
{
    if i > 0 {
        assert(a[0] == a.take(i)[0] && b[0] == b.take(i)[0]);
        assert(a.drop_first().take(i - 1) =~= a.take(i).drop_first());
        assert(b.drop_first().take(i - 1) =~= b.take(i).drop_first());
        lemma_minore_prima_differenza(a.drop_first(), b.drop_first(), i - 1);
    }
}

/// A text that is a proper beginning of another comes before it.
pub proof fn lemma_prefisso_prima(a: Seq<char>, b: Seq<char>)
    requires
        a.len() < b.len(),
        a == b.take(a.len() as int),
    ensures
        minore_testo(a, b),
        !minore_testo(b, a),
    decreases a.len(),
{
    if a.len() > 0 {
        assert(a[0] == b.take(a.len() as int)[0]);
        assert(a.drop_first() =~= b.drop_first().take(a.drop_first().len() as int));
        lemma_prefisso_prima(a.drop_first(), b.drop_first());
    }
}

/// The report puts members of the club before the others; among players of
/// the same membership, at the first position where the names differ, the
/// name with the character of smaller code point comes first.
pub proof fn lemma_precede_nel_report(a: GiocatoreV, b: GiocatoreV, i: int)
    ensures
        a.socio && !b.socio ==> precede(a, b) && !precede(b, a),
        a.socio == b.socio && 0 <= i < a.nome.len() && i < b.nome.len() && a.nome.take(i) == b.nome.take(i)
            && a.nome[i] != b.nome[i] ==> (precede(a, b) <==> (a.nome[i] as int) < (b.nome[i] as int)),
{
    if a.socio == b.socio && 0 <= i < a.nome.len() && i < b.nome.len() && a.nome.take(i) == b.nome.take(i)
        && a.nome[i] != b.nome[i] {
        lemma_minore_prima_differenza(a.nome, b.nome, i);
    }
}

/// No text comes before itself.
pub proof fn lemma_minore_irriflessivo(a: Seq<char>)
    ensures
        !minore_testo(a, a),
    decreases a.len(),
{
    if a.len() > 0 {
        lemma_minore_irriflessivo(a.drop_first());
    }
}

/// The order of texts is transitive.
pub proof fn lemma_minore_transitivo(a: Seq<char>, b: Seq<char>, c: Seq<char>)
    requires
        minore_testo(a, b),
        minore_testo(b, c),
    ensures
        minore_testo(a, c),
    decreases a.len(),
{
    if a.len() > 0 && b.len() > 0 && c.len() > 0 && a[0] == b[0] && b[0] == c[0] {
        lemma_minore_transitivo(a.drop_first(), b.drop_first(), c.drop_first());
    }
}

/// Of two different texts, one comes before the other.
pub proof fn lemma_minore_totale(a: Seq<char>, b: Seq<char>)
    requires
        a != b,
    ensures
        minore_testo(a, b) || minore_testo(b, a),
    decreases a.len(),
{
    if a.len() > 0 && b.len() > 0 {
        if a[0] == b[0] {
            if a.drop_first() == b.drop_first() {
                assert(a =~= seq![a[0]] + a.drop_first());
                assert(b =~= seq![b[0]] + b.drop_first());
            }
            lemma_minore_totale(a.drop_first(), b.drop_first());
        } else {
            assert((a[0] as int) != (b[0] as int));
        }
    } else if a.len() == 0 && b.len() == 0 {
        assert(a =~= b);
    }
}

/// The order of the report is a strict order: irreflexive and transitive.
pub proof fn lemma_precede_ordine_stretto(a: GiocatoreV, b: GiocatoreV, c: GiocatoreV)
    ensures
        !precede(a, a),
        precede(a, b) && precede(b, c) ==> precede(a, c),
{
    lemma_minore_irriflessivo(a.nome);
    if precede(a, b) && precede(b, c) && a.socio == b.socio && b.socio == c.socio {
        lemma_minore_transitivo(a.nome, b.nome, c.nome);
    }
}

/// Two players neither of whom comes before the other have the same
/// membership and the same name.
pub proof fn lemma_precede_totale(a: GiocatoreV, b: GiocatoreV)
    requires
        !precede(a, b),
        !precede(b, a),
    ensures
        a.socio == b.socio,
        a.nome == b.nome,
{
    if a.nome != b.nome {
        lemma_minore_totale(a.nome, b.nome);
    }
}

/// Whether text `a` comes strictly before text `b`.
pub fn minore(a: &Vec<char>, b: &Vec<char>) -> (r: bool)
    ensures
        r == minore_testo(a@, b@),
{
    let mut i: usize = 0;
    assert(a@.skip(0) =~= a@);
    assert(b@.skip(0) =~= b@);
    while i < a.len() && i < b.len() && a[i] == b[i]
        invariant
            i <= a.len(),
            i <= b.len(),
            minore_testo(a@, b@) == minore_testo(a@.skip(i as int), b@.skip(i as int)),
        decreases a.len() - i,
    {
        proof {
            assert(a@.skip(i as int).drop_first() =~= a@.skip(i as int + 1));
            assert(b@.skip(i as int).drop_first() =~= b@.skip(i as int + 1));
        }
        i = i + 1;
    }
    if i == a.len() {
        i < b.len()
    } else if i == b.len() {
        false
    } else {
        a[i] < b[i]
    }
}

impl Player {
    /// Whether this player comes strictly before `other` in the report.
    pub fn precede(&self, other: &Player) -> (r: bool)
        ensures
            r == precede(self@, other@),
    {
        if self.socio != other.socio {
            self.socio
        } else {
            minore(&caratteri(self.nome.as_str()), &caratteri(other.nome.as_str()))
        }
    }

    /// The order of the report between this player and `other`: `Less`
    /// when this one comes first, `Greater` when `other` does, `Equal` when
    /// both have the same membership and the same name.
    pub fn confronta(&self, other: &Player) -> (r: std::cmp::Ordering)
        ensures
            (r == std::cmp::Ordering::Less) == precede(self@, other@),
            (r == std::cmp::Ordering::Greater) == precede(other@, self@),
            (r == std::cmp::Ordering::Equal) == (self.socio == other.socio && self.nome@ == other.nome@),
    {
        proof {
            lemma_precede_ordine_stretto(self@, other@, self@);
            if !precede(self@, other@) && !precede(other@, self@) {
                lemma_precede_totale(self@, other@);
            }
            if self.nome@ == other.nome@ {
                lemma_minore_irriflessivo(self.nome@);
            }
        }
        if self.precede(other) {
            std::cmp::Ordering::Less
        } else if other.precede(self) {
            std::cmp::Ordering::Greater
        } else {
            std::cmp::Ordering::Equal
        }
    }

    /// Whether two players have the same name, which is when the report
    /// counts them as equal.
    pub fn stesso_nome(&self, other: &Player) -> (r: bool)
        ensures
            r == (self.nome@ == other.nome@),
    {
        self.nome == other.nome
    }
}

} // verus!
