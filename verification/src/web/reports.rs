//! Reports page: query parsing, tab selection and tab links.
use vstd::prelude::*;

use crate::text::{int_digits, parse_i64, push_i64_digits, str_eq, trim};
use crate::web::inventory::spec_parsed_id;
use crate::web::outbound::pair_views;
use crate::web::templates::TabLink;

verus! {

/// The report tabs' slugs, in page order.
pub open spec fn is_tab_slug(s: Seq<char>) -> bool {
    s == "donors"@ || s == "eur"@ || s == "brl"@ || s == "inventory"@ || s == "outbound"@ || s
        == "audit"@
}

/// The tab a request asks for if it is one of the report tabs, else
/// "donors". The slug also names the exported file, so only the six known
/// slugs can ever come out.
pub fn tab_slug(requested: &str) -> (r: &'static str)
    ensures
        is_tab_slug(requested@) ==> r@ == requested@,
        !is_tab_slug(requested@) ==> r@ == "donors"@,
        is_tab_slug(r@),
{
    if str_eq(requested, "eur") {
        "eur"
    } else if str_eq(requested, "brl") {
        "brl"
    } else if str_eq(requested, "inventory") {
        "inventory"
    } else if str_eq(requested, "outbound") {
        "outbound"
    } else if str_eq(requested, "audit") {
        "audit"
    } else {
        "donors"
    }
}

/// Parses the recipient filter: `None` for a blank or unparseable value.
pub fn parsed_recipient(s: &str) -> (r: Option<i64>)
    ensures
        r == spec_parsed_id(s@),
{
    let s = trim(s);
    if s.is_empty() {
        None
    } else {
        parse_i64(s)
    }
}

/// The locale an export uses when none is asked for.
pub fn default_locale() -> (s: String)
    ensures
        s@ == "en"@,
{
    String::from_str("en")
}

/// The UTF-8 encoding of `c`.
pub open spec fn utf8_bytes(c: char) -> Seq<u8> {
    let n = c as int;
    if n < 0x80 {
        seq![n as u8]
    } else if n < 0x800 {
        seq![(0xC0 + n / 64) as u8, (0x80 + n % 64) as u8]
    } else if n < 0x10000 {
        seq![(0xE0 + n / 4096) as u8, (0x80 + (n / 64) % 64) as u8, (0x80 + n % 64) as u8]
    } else {
        seq![
            (0xF0 + n / 262144) as u8,
            (0x80 + (n / 4096) % 64) as u8,
            (0x80 + (n / 64) % 64) as u8,
            (0x80 + n % 64) as u8,
        ]
    }
}

/// The upper-case hexadecimal digit of `d` (below 16).
pub open spec fn hex_digit(d: int) -> char {
    if d < 10 {
        (('0' as int) + d) as char
    } else {
        (('A' as int) + d - 10) as char
    }
}

/// How `form_urlencoded::byte_serialize` writes one byte: ASCII letters,
/// digits and `*-._` as they are, a space as `+`, any other byte as `%`
/// and its two upper-case hex digits.
pub open spec fn form_encoded_byte(b: u8) -> Seq<char> {
    // 'a'..='z', 'A'..='Z', '0'..='9', '*', '-', '.', '_'
    if (97 <= b <= 122) || (65 <= b <= 90) || (48 <= b <= 57) || b == 42 || b == 45 || b == 46 || b
        == 95 {
        seq![b as char]
    } else if b == 32 {
        seq!['+']
    } else {
        seq!['%', hex_digit(b as int / 16), hex_digit(b as int % 16)]
    }
}

/// The bytes `bs` written as `byte_serialize` writes them.
pub open spec fn form_encoded_bytes(bs: Seq<u8>) -> Seq<char>
    decreases bs.len(),
{
    if bs.len() == 0 {
        Seq::empty()
    } else {
        form_encoded_bytes(bs.drop_last()) + form_encoded_byte(bs.last())
    }
}

/// The text `s` written as `byte_serialize` writes its UTF-8 bytes.
pub open spec fn form_encoded(s: Seq<char>) -> Seq<char>
    decreases s.len(),
{
    if s.len() == 0 {
        Seq::empty()
    } else {
        form_encoded(s.drop_last()) + form_encoded_bytes(utf8_bytes(s.last()))
    }
}

/// What `form_urlencoded::Serializer` writes for `pairs` appended in
/// order to an empty string: each pair as its encoded name, `=` and its
/// encoded value, the pairs joined with `&`.
pub open spec fn urlencoded_query(pairs: Seq<(Seq<char>, Seq<char>)>) -> Seq<char>
    decreases pairs.len(),
{
    if pairs.len() == 0 {
        Seq::empty()
    } else {
        let prev = urlencoded_query(pairs.drop_last());
        let p = pairs.last();
        (if pairs.len() > 1 {
            prev + seq!['&']
        } else {
            prev
        }) + form_encoded(p.0) + seq!['='] + form_encoded(p.1)
    }
}

/// Appends `pairs` in order to a fresh `form_urlencoded::Serializer` over
/// an empty `String` (`extend_pairs`, no encoding override, so each text
/// is encoded from its UTF-8 bytes) and finishes it. The text is
/// `urlencoded_query` of the pairs.
#[verifier::external_body]
fn serialize_pairs(pairs: &[(String, String)]) -> (r: String)
    ensures
        r@ == urlencoded_query(pair_views(pairs@)),
{
    form_urlencoded::Serializer::new(String::new()).extend_pairs(pairs).finish()
}

/// The query a report link carries: tab, date range and, when set, the
/// recipient filter, in that order.
pub open spec fn spec_query_pairs(
    tab: Seq<char>,
    from: Seq<char>,
    to: Seq<char>,
    recipient: Option<i64>,
) -> Seq<(Seq<char>, Seq<char>)> {
    seq![("tab"@, tab), ("from"@, from), ("to"@, to)] + match recipient {
        Some(r) => seq![("recipient"@, int_digits(r as int))],
        None => Seq::empty(),
    }
}

/// The query string of a report link.
pub fn query_string(tab: &str, from: &str, to: &str, recipient: Option<i64>) -> (s: String)
    ensures
        s@ == urlencoded_query(spec_query_pairs(tab@, from@, to@, recipient)),
{
    let mut pairs: Vec<(String, String)> = Vec::new();
    pairs.push((String::from_str("tab"), String::from_str(tab)));
    pairs.push((String::from_str("from"), String::from_str(from)));
    pairs.push((String::from_str("to"), String::from_str(to)));
    match recipient {
        Some(r) => {
            let mut digits = String::new();
            push_i64_digits(&mut digits, r);
            pairs.push((String::from_str("recipient"), digits));
        },
        None => {},
    }
    proof {
        reveal_strlit("tab");
        reveal_strlit("from");
        reveal_strlit("to");
        reveal_strlit("recipient");
        assert(pair_views(pairs@) =~= spec_query_pairs(tab@, from@, to@, recipient));
    }
    serialize_pairs(pairs.as_slice())
}

/// The report tabs, slug and label, in page order.
pub open spec fn report_tabs() -> Seq<(Seq<char>, Seq<char>)> {
    seq![
        ("donors"@, "Donor breakdown"@),
        ("eur"@, "EUR ledger"@),
        ("brl"@, "BRL ledger"@),
        ("inventory"@, "Inventory"@),
        ("outbound"@, "Outbound"@),
        ("audit"@, "Audit trail"@),
    ]
}

/// The link to one report tab, keeping the date range and recipient
/// filter, marked active when it is the tab shown.
pub open spec fn is_tab_link(
    link: TabLink,
    tab: (Seq<char>, Seq<char>),
    active: Seq<char>,
    from: Seq<char>,
    to: Seq<char>,
    recipient: Option<i64>,
) -> bool {
    &&& link.label@ == tab.1
    &&& link.href@ == "/reports?"@ + urlencoded_query(spec_query_pairs(tab.0, from, to, recipient))
    &&& link.active == (tab.0 == active)
}

fn tab_link(
    slug: &str,
    label: &str,
    active: &str,
    from: &str,
    to: &str,
    recipient: Option<i64>,
) -> (l: TabLink)
    ensures
        is_tab_link(l, (slug@, label@), active@, from@, to@, recipient),
{
    let mut href = String::from_str("/reports?");
    let q = query_string(slug, from, to, recipient);
    href.append(q.as_str());
    proof { reveal_strlit("/reports?"); }
    TabLink { label: String::from_str(label), href, active: str_eq(slug, active) }
}

/// The tab bar of the reports page: one link per report tab, in page
/// order, with `active` (the tab shown) marked.
pub fn tab_links(active: &str, from: &str, to: &str, recipient: Option<i64>) -> (links: Vec<TabLink>)
    ensures
        links@.len() == report_tabs().len(),
        forall|i: int|
            0 <= i < links@.len() ==> is_tab_link(
                #[trigger] links@[i],
                report_tabs()[i],
                active@,
                from@,
                to@,
                recipient,
            ),
        forall|i: int, j: int|
            0 <= i < j < links@.len() ==> !((#[trigger] links@[i]).active && (#[trigger] links@[j]).active),
        is_tab_slug(active@) ==> exists|i: int| 0 <= i < links@.len() && (#[trigger] links@[i]).active,
{
    proof {
        reveal_strlit("donors");
        reveal_strlit("Donor breakdown");
        reveal_strlit("eur");
        reveal_strlit("EUR ledger");
        reveal_strlit("brl");
        reveal_strlit("BRL ledger");
        reveal_strlit("inventory");
        reveal_strlit("Inventory");
        reveal_strlit("outbound");
        reveal_strlit("Outbound");
        reveal_strlit("audit");
        reveal_strlit("Audit trail");
    }
    let mut links: Vec<TabLink> = Vec::new();
    links.push(tab_link("donors", "Donor breakdown", active, from, to, recipient));
    links.push(tab_link("eur", "EUR ledger", active, from, to, recipient));
    links.push(tab_link("brl", "BRL ledger", active, from, to, recipient));
    links.push(tab_link("inventory", "Inventory", active, from, to, recipient));
    links.push(tab_link("outbound", "Outbound", active, from, to, recipient));
    links.push(tab_link("audit", "Audit trail", active, from, to, recipient));
    proof {
        assert forall|i: int, j: int| 0 <= i < j < 6 implies report_tabs()[i].0[0] != report_tabs()[j].0[0] by {}
        assert forall|i: int, j: int|
            0 <= i < j < links@.len() implies !((#[trigger] links@[i]).active && (#[trigger] links@[j]).active) by {
            assert(report_tabs()[i].0 != report_tabs()[j].0) by {
                assert(report_tabs()[i].0[0] != report_tabs()[j].0[0]);
            }
        }
        if is_tab_slug(active@) {
            if active@ == "donors"@ {
                assert(links@[0].active);
            } else if active@ == "eur"@ {
                assert(links@[1].active);
            } else if active@ == "brl"@ {
                assert(links@[2].active);
            } else if active@ == "inventory"@ {
                assert(links@[3].active);
            } else if active@ == "outbound"@ {
                assert(links@[4].active);
            } else {
                assert(links@[5].active);
            }
        }
    }
    links
}

} // verus!
