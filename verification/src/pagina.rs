//! The pages of the federation's site: the CSS selectors of the report and
//! what the report reads of a page through `scraper`.

use vstd::prelude::*;

verus! {

#[verifier::external_type_specification]
#[verifier::external_body]
pub struct ExHtml(scraper::Html);

#[verifier::external_type_specification]
#[verifier::external_body]
pub struct ExSelector(scraper::Selector);

#[verifier::external_type_specification]
#[verifier::external_body]
pub struct ExElementRef<'a>(scraper::ElementRef<'a>);

#[verifier::external_type_specification]
#[verifier::external_body]
pub struct ExNodeId(ego_tree::NodeId);

/// The selector that `scraper::Selector::parse` makes of a CSS text.
pub uninterp spec fn selettore_css(css: Seq<char>) -> scraper::Selector;

/// The document tree that `scraper::Html::parse_document` makes of an
/// HTML text. With scraper's `deterministic` feature, which this crate
/// asks for, the attributes of an element keep their order in the text, so
/// the same text gives the same tree.
pub uninterp spec fn documento_di(testo: Seq<char>) -> scraper::Html;

/// The nodes of the elements of a document that `scraper::Html::select`
/// finds for a selector, in the order of the tree's node store: the order
/// in which the parser made the nodes.
pub uninterp spec fn selezionati(doc: scraper::Html, sel: scraper::Selector) -> Seq<ego_tree::NodeId>;

/// The node of the document tree that an element stands for, which
/// `ElementRef::id` (`ego_tree::NodeRef::id`) gives: an index into the
/// tree, free of any address.
pub uninterp spec fn nodo(el: scraper::ElementRef) -> ego_tree::NodeId;

/// The descendants of an element that `scraper::ElementRef::select` finds
/// for a selector, in document order.
pub uninterp spec fn dentro_di(el: scraper::ElementRef, sel: scraper::Selector) -> Seq<scraper::ElementRef>;

/// The text nodes below an element, as `scraper::ElementRef::text` gives
/// them, in document order.
pub uninterp spec fn testi_di(el: scraper::ElementRef) -> Seq<Seq<char>>;

/// The HTML inside an element, as `scraper::ElementRef::inner_html` writes
/// it.
pub uninterp spec fn html_interno_di(el: scraper::ElementRef) -> Seq<char>;

/// The value of attribute `nome` of an element, as
/// `scraper::ElementRef::attr` gives it.
pub uninterp spec fn attributo_di(el: scraper::ElementRef, nome: Seq<char>) -> Option<Seq<char>>;

/// `scraper::Selector::parse` of one of the report's selectors, which all
/// parse: the selector it makes of `css`.
#[verifier::external_body]
fn selettore(css: &str) -> (r: scraper::Selector)
    requires
        css@ == "tr.ALTbase20"@ || css@ == "a"@ || css@ == "b"@
            || css@ == "tr.BGCLibere.ALTbase25,tr.BGCTDLibere.ALTbase25"@
            || css@ == "td.Capitalize.POSbase0, td.COLceleste, td.Capitalize.POSbase0>span"@,
    ensures
        r == selettore_css(css@),
{
    scraper::Selector::parse(css).unwrap()
}

/// `scraper::Html::parse_document`: the document tree of an HTML text.
#[verifier::external_body]
fn documento(testo: &str) -> (r: scraper::Html)
    ensures
        r == documento_di(testo@),
{
    scraper::Html::parse_document(testo)
}

/// `scraper::Html::select`: the elements of a document that match a
/// selector, in the order of the tree's node store, given by their nodes.
/// The elements themselves also hold the address of the document, so they
/// are not named.
#[verifier::external_body]
fn seleziona<'a>(doc: &'a scraper::Html, sel: &scraper::Selector) -> (r: Vec<scraper::ElementRef<'a>>)
    ensures
        r.len() == selezionati(*doc, *sel).len(),
        forall|i: int| 0 <= i < r.len() ==> #[trigger] nodo(r@[i]) == selezionati(*doc, *sel)[i],
{
    doc.select(sel).collect()
}

/// `scraper::ElementRef::select`: the descendants of an element that
/// match a selector, in document order.
#[verifier::external_body]
fn seleziona_dentro<'a>(el: &scraper::ElementRef<'a>, sel: &scraper::Selector) -> (r: Vec<scraper::ElementRef<'a>>)
    ensures
        r@ == dentro_di(*el, *sel),
{
    el.select(sel).collect()
}

/// `scraper::ElementRef::text`: the text nodes below an element, in
/// document order.
#[verifier::external_body]
fn testi<'a>(el: &scraper::ElementRef<'a>) -> (r: Vec<&'a str>)
    ensures
        r@.map_values(|t: &str| t@) == testi_di(*el),
{
    el.text().collect()
}

/// `scraper::ElementRef::inner_html`: the HTML inside an element.
#[verifier::external_body]
fn html_interno(el: &scraper::ElementRef) -> (r: String)
    ensures
        r@ == html_interno_di(*el),
{
    el.inner_html()
}

/// `scraper::ElementRef::attr`: the value of an attribute of an element,
/// if it has it.
#[verifier::external_body]
fn attributo<'a>(el: &scraper::ElementRef<'a>, nome: &str) -> (r: Option<&'a str>)
    ensures
        match r {
            Some(t) => attributo_di(*el, nome@) == Some(t@),
            None => attributo_di(*el, nome@) is None,
        },
{
    el.attr(nome)
}

/// The rows of the tournament list: `tr.ALTbase20`.
pub struct TournamentSelector(scraper::Selector);

/// The link of a tournament's row: `a`.
pub struct TournamentPageSelector(scraper::Selector);

/// The rows of a tournament's ranking, one per pair:
/// `tr.BGCLibere.ALTbase25,tr.BGCTDLibere.ALTbase25`.
pub struct PairSelector(scraper::Selector);

/// The cell of a player's code.
pub struct CodeSelector(scraper::Selector);

/// The cell of a player's name.
pub struct PlayerSelector(scraper::Selector);

/// The date inside a tournament's link: `b`.
pub struct TournamentDateSelector(scraper::Selector);

/// The cells of a pair's row that hold, for each player, code, name and
/// club: `td.Capitalize.POSbase0, td.COLceleste, td.Capitalize.POSbase0>span`.
pub struct CodeNameCircoloSelector(scraper::Selector);

impl TournamentSelector {
    pub fn new() -> (r: Self)
        ensures
            r.selettore() == selettore_css("tr.ALTbase20"@),
    {
        TournamentSelector(selettore("tr.ALTbase20"))
    }
}

impl TournamentPageSelector {
    pub fn new() -> (r: Self)
        ensures
            r.selettore() == selettore_css("a"@),
    {
        TournamentPageSelector(selettore("a"))
    }
}

impl PairSelector {
    pub fn new() -> (r: Self)
        ensures
            r.selettore() == selettore_css("tr.BGCLibere.ALTbase25,tr.BGCTDLibere.ALTbase25"@),
    {
        PairSelector(selettore("tr.BGCLibere.ALTbase25,tr.BGCTDLibere.ALTbase25"))
    }
}

impl TournamentDateSelector {
    pub fn new() -> (r: Self)
        ensures
            r.selettore() == selettore_css("b"@),
    {
        TournamentDateSelector(selettore("b"))
    }
}

impl CodeNameCircoloSelector {
    pub fn new() -> (r: Self)
        ensures
            r.selettore() == selettore_css("td.Capitalize.POSbase0, td.COLceleste, td.Capitalize.POSbase0>span"@),
    {
        CodeNameCircoloSelector(selettore("td.Capitalize.POSbase0, td.COLceleste, td.Capitalize.POSbase0>span"))
    }
}

impl TournamentSelector {
    /// The selector held.
    pub closed spec fn selettore(&self) -> scraper::Selector {
        self.0
    }
}

impl std::ops::Deref for TournamentSelector {
    type Target = scraper::Selector;

    fn deref(&self) -> (r: &scraper::Selector)
        ensures
            *r == self.selettore(),
    {
        &self.0
    }
}

impl TournamentPageSelector {
    /// The selector held.
    pub closed spec fn selettore(&self) -> scraper::Selector {
        self.0
    }
}

impl std::ops::Deref for TournamentPageSelector {
    type Target = scraper::Selector;

    fn deref(&self) -> (r: &scraper::Selector)
        ensures
            *r == self.selettore(),
    {
        &self.0
    }
}

impl PairSelector {
    /// The selector held.
    pub closed spec fn selettore(&self) -> scraper::Selector {
        self.0
    }
}

impl std::ops::Deref for PairSelector {
    type Target = scraper::Selector;

    fn deref(&self) -> (r: &scraper::Selector)
        ensures
            *r == self.selettore(),
    {
        &self.0
    }
}

impl CodeSelector {
    /// The selector held.
    pub closed spec fn selettore(&self) -> scraper::Selector {
        self.0
    }
}

impl std::ops::Deref for CodeSelector {
    type Target = scraper::Selector;

    fn deref(&self) -> (r: &scraper::Selector)
        ensures
            *r == self.selettore(),
    {
        &self.0
    }
}

impl PlayerSelector {
    /// The selector held.
    pub closed spec fn selettore(&self) -> scraper::Selector {
        self.0
    }
}

impl std::ops::Deref for PlayerSelector {
    type Target = scraper::Selector;

    fn deref(&self) -> (r: &scraper::Selector)
        ensures
            *r == self.selettore(),
    {
        &self.0
    }
}

impl TournamentDateSelector {
    /// The selector held.
    pub closed spec fn selettore(&self) -> scraper::Selector {
        self.0
    }
}

impl std::ops::Deref for TournamentDateSelector {
    type Target = scraper::Selector;

    fn deref(&self) -> (r: &scraper::Selector)
        ensures
            *r == self.selettore(),
    {
        &self.0
    }
}

impl CodeNameCircoloSelector {
    /// The selector held.
    pub closed spec fn selettore(&self) -> scraper::Selector {
        self.0
    }
}

impl std::ops::Deref for CodeNameCircoloSelector {
    type Target = scraper::Selector;

    fn deref(&self) -> (r: &scraper::Selector)
        ensures
            *r == self.selettore(),
    {
        &self.0
    }
}

/// What the report reads of a tournament's link: the HTML of its first
/// `b` element, if any, and its `href`, if any.
pub struct Collegamento {
    pub data: Option<String>,
    pub indirizzo: Option<String>,
}

/// What the report reads of a row of the tournament list: its fourth
/// text node, the tournament's code, if any, and its first link, if any.
pub struct RigaTorneo {
    pub codice: Option<String>,
    pub collegamento: Option<Collegamento>,
}

/// The characters of an optional text.
pub open spec fn testo_opzionale(t: Option<String>) -> Option<Seq<char>> {
    match t {
        Some(s) => Some(s@),
        None => None,
    }
}

/// The characters of optional texts.
pub open spec fn testi_opzionali(v: Seq<Option<String>>) -> Seq<Option<Seq<char>>> {
    v.map_values(|t: Option<String>| testo_opzionale(t))
}

/// The value of a [`RigaTorneo`]: the code, then, if the row has a link,
/// the date's HTML and the address.
pub struct RigaV {
    pub codice: Option<Seq<char>>,
    pub collegamento: Option<(Option<Seq<char>>, Option<Seq<char>>)>,
}

impl View for RigaTorneo {
    type V = RigaV;

    open spec fn view(&self) -> RigaV {
        RigaV {
            codice: testo_opzionale(self.codice),
            collegamento: match self.collegamento {
                Some(c) => Some((testo_opzionale(c.data), testo_opzionale(c.indirizzo))),
                None => None,
            },
        }
    }
}

/// The `n`-th of some texts, if there are that many.
pub fn n_esimo(testi: &Vec<&str>, n: usize) -> (r: Option<String>)
    ensures
        r is Some <==> n < testi.len(),
        r matches Some(t) ==> t@ == testi@[n as int]@,
{
    if n < testi.len() {
        Some(String::from_str(testi[n]))
    } else {
        None
    }
}

fn in_stringa(t: Option<&str>) -> (r: Option<String>)
    ensures
        r is Some <==> t is Some,
        r matches Some(s) ==> s@ == t->0@,
{
    match t {
        Some(t) => Some(String::from_str(t)),
        None => None,
    }
}

/// What the report reads of a row element of the tournament list, links
/// found with `sel_link` and the date inside a link with `sel_data`: the
/// fourth text node, then, if the row has a link, the inner HTML of the
/// first date element of the first link and its `href`.
pub open spec fn riga_letta(
    riga: scraper::ElementRef,
    sel_link: scraper::Selector,
    sel_data: scraper::Selector,
) -> RigaV {
    let t = testi_di(riga);
    let codice = if t.len() > 3 { Some(t[3]) } else { None };
    let links = dentro_di(riga, sel_link);
    if links.len() == 0 {
        RigaV { codice, collegamento: None }
    } else {
        let date = dentro_di(links[0], sel_data);
        let data = if date.len() > 0 { Some(html_interno_di(date[0])) } else { None };
        RigaV { codice, collegamento: Some((data, attributo_di(links[0], "href"@))) }
    }
}

/// The first text node of each cell of a ranking row, cells found with
/// `sel`.
pub open spec fn celle_lette(riga: scraper::ElementRef, sel: scraper::Selector) -> Seq<Option<Seq<char>>> {
    dentro_di(riga, sel).map_values(
        |c: scraper::ElementRef| if testi_di(c).len() > 0 { Some(testi_di(c)[0]) } else { None },
    )
}

fn leggi_riga<'a>(
    riga: &scraper::ElementRef<'a>,
    sel_link: &TournamentPageSelector,
    sel_data: &TournamentDateSelector,
) -> (r: RigaTorneo)
    ensures
        r@ == riga_letta(*riga, sel_link.selettore(), sel_data.selettore()),
{
    let t = testi(riga);
    let codice = n_esimo(&t, 3);
    assert(t@.len() == testi_di(*riga).len());
    assert(codice is Some ==> testi_di(*riga)[3] == t@[3]@);
    let links = seleziona_dentro(riga, &sel_link.0);
    if links.len() == 0 {
        return RigaTorneo { codice, collegamento: None };
    }
    let link = &links[0];
    let date = seleziona_dentro(link, &sel_data.0);
    let data = if date.len() > 0 { Some(html_interno(&date[0])) } else { None };
    let indirizzo = in_stringa(attributo(link, "href"));
    proof {
        reveal_strlit("href");
    }
    RigaTorneo { codice, collegamento: Some(Collegamento { data, indirizzo }) }
}

/// The rows of the tournament list on page `pagina`, in the order in which
/// the parser made them: row `i` is the `i`-th element that
/// `tr.ALTbase20` selects, read as
/// [`riga_letta`] with `a` and `b`.
pub fn righe_tornei(pagina: &str) -> (r: Vec<RigaTorneo>)
    ensures
        r.len() == selezionati(documento_di(pagina@), selettore_css("tr.ALTbase20"@)).len(),
        exists|elementi: Seq<scraper::ElementRef>|
            {
                &&& elementi.len() == r.len()
                &&& forall|i: int|
                    0 <= i < r.len() ==> #[trigger] nodo(elementi[i]) == selezionati(
                        documento_di(pagina@),
                        selettore_css("tr.ALTbase20"@),
                    )[i]
                &&& forall|i: int|
                    0 <= i < r.len() ==> #[trigger] r@[i]@ == riga_letta(
                        elementi[i],
                        selettore_css("a"@),
                        selettore_css("b"@),
                    )
            },
{
    let doc = documento(pagina);
    let sel = TournamentSelector::new();
    let sel_link = TournamentPageSelector::new();
    let sel_data = TournamentDateSelector::new();
    let righe = seleziona(&doc, &sel.0);
    let mut r: Vec<RigaTorneo> = Vec::new();
    let mut i: usize = 0;
    while i < righe.len()
        invariant
            i <= righe.len(),
            r.len() == i,
            sel_link.selettore() == selettore_css("a"@),
            sel_data.selettore() == selettore_css("b"@),
            forall|j: int|
                0 <= j < i ==> #[trigger] r@[j]@ == riga_letta(
                    righe@[j],
                    selettore_css("a"@),
                    selettore_css("b"@),
                ),
        decreases righe.len() - i,
    {
        r.push(leggi_riga(&righe[i], &sel_link, &sel_data));
        i = i + 1;
    }
    assert(forall|j: int|
        0 <= j < r.len() ==> #[trigger] r@[j]@ == riga_letta(righe@[j], selettore_css("a"@), selettore_css("b"@)));
    r
}

/// The first text node of each player cell of each pair's row on a
/// tournament's page: one vector per pair, in the order in which the
/// parser made the rows, for the rows
/// that `tr.BGCLibere.ALTbase25,tr.BGCTDLibere.ALTbase25` selects, read as
/// [`celle_lette`] with the cell selector of [`CodeNameCircoloSelector`].
pub fn celle_coppie(pagina: &str) -> (r: Vec<Vec<Option<String>>>)
    ensures
        r.len() == selezionati(
            documento_di(pagina@),
            selettore_css("tr.BGCLibere.ALTbase25,tr.BGCTDLibere.ALTbase25"@),
        ).len(),
        exists|elementi: Seq<scraper::ElementRef>|
            {
                &&& elementi.len() == r.len()
                &&& forall|i: int|
                    0 <= i < r.len() ==> #[trigger] nodo(elementi[i]) == selezionati(
                        documento_di(pagina@),
                        selettore_css("tr.BGCLibere.ALTbase25,tr.BGCTDLibere.ALTbase25"@),
                    )[i]
                &&& forall|i: int|
                    0 <= i < r.len() ==> #[trigger] testi_opzionali(r@[i]@)
                        == celle_lette(
                        elementi[i],
                        selettore_css("td.Capitalize.POSbase0, td.COLceleste, td.Capitalize.POSbase0>span"@),
                    )
            },
{
    let doc = documento(pagina);
    let sel = PairSelector::new();
    let sel_celle = CodeNameCircoloSelector::new();
    let righe = seleziona(&doc, &sel.0);
    let mut r: Vec<Vec<Option<String>>> = Vec::new();
    let mut i: usize = 0;
    let ghost sc = selettore_css("td.Capitalize.POSbase0, td.COLceleste, td.Capitalize.POSbase0>span"@);
    while i < righe.len()
        invariant
            i <= righe.len(),
            r.len() == i,
            sel_celle.selettore() == sc,
            forall|k: int|
                0 <= k < i ==> #[trigger] testi_opzionali(r@[k]@) == celle_lette(
                    righe@[k],
                    sc,
                ),
        decreases righe.len() - i,
    {
        let celle = seleziona_dentro(&righe[i], &sel_celle.0);
        let mut v: Vec<Option<String>> = Vec::new();
        let mut j: usize = 0;
        while j < celle.len()
            invariant
                j <= celle.len(),
                v.len() == j,
                celle@ == dentro_di(righe@[i as int], sc),
                forall|k: int|
                    0 <= k < j ==> #[trigger] testo_opzionale(v@[k]) == (if testi_di(celle@[k]).len() > 0 {
                        Some(testi_di(celle@[k])[0])
                    } else {
                        None
                    }),
            decreases celle.len() - j,
        {
            let t = testi(&celle[j]);
            v.push(n_esimo(&t, 0));
            assert(t@.len() == testi_di(celle@[j as int]).len());
            assert(t@.len() > 0 ==> t@[0]@ == testi_di(celle@[j as int])[0]);
            j = j + 1;
        }
        assert(testi_opzionali(v@) =~= celle_lette(righe@[i as int], sc));
        r.push(v);
        i = i + 1;
    }
    assert(forall|k: int|
        0 <= k < r.len() ==> #[trigger] testi_opzionali(r@[k]@) == celle_lette(
            righe@[k],
            sc,
        ));
    r
}

} // verus!
