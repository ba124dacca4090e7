//! Parsing and rendering of a TOML "manifest" payload.
//!
//! A manifest is a TOML document holding a list of orders under
//! `package.metadata.orders`; each order has a text `item` and an unsigned
//! integer `quantity`. Given a request body and its declared content type,
//! `manifest` parses the document and renders each order as
//! `"<item>: <quantity>"`, one per line in document order, joined by single
//! newlines with no trailing newline.

use vstd::prelude::*;

use crate::decimal::dec_str;

verus! {

/// What `String::from_utf8_lossy` yields on the given bytes: a function of
/// the bytes alone.
pub uninterp spec fn lossy_str_of(b: Seq<u8>) -> Seq<char>;

/// What the TOML deserializer yields on the given document: the list under
/// `package.metadata.orders`, each entry's string `item` and integer
/// `quantity`, in document order; `None` when the document is not valid TOML
/// or lacks that shape. A function of the text alone.
pub uninterp spec fn toml_manifest_orders(s: Seq<char>) -> Option<Seq<(Seq<char>, int)>>;

/// The mathematical content of a decoded order list: each item as a
/// character sequence, each quantity as an unbounded integer.
pub open spec fn orders_model(v: Seq<(String, i64)>) -> Seq<(Seq<char>, int)> {
    v.map_values(|p: (String, i64)| (p.0@, p.1 as int))
}

/// The same, for quantities already narrowed to `u32`.
pub open spec fn orders_model32(v: Seq<(String, u32)>) -> Seq<(Seq<char>, int)> {
    v.map_values(|p: (String, u32)| (p.0@, p.1 as int))
}

/// Every quantity in the list fits in an unsigned 32-bit integer.
pub open spec fn quantities_fit(os: Seq<(Seq<char>, int)>) -> bool {
    forall|i: int| 0 <= i < os.len() ==> 0 <= #[trigger] os[i].1 <= u32::MAX
}

/// One rendered order: the item, a colon and a space, then the quantity in
/// decimal.
pub open spec fn order_line(item: Seq<char>, q: int) -> Seq<char> {
    item + ": "@ + dec_str(q as nat)
}

/// The rendered order list: one line per order in document order, joined by
/// single newlines, with no separator before the first line nor after the
/// last, and empty for an empty list.
pub open spec fn render_lines(os: Seq<(Seq<char>, int)>) -> Seq<char>
    decreases os.len(),
{
    if os.len() == 0 {
        Seq::empty()
    } else if os.len() == 1 {
        order_line(os[0].0, os[0].1)
    } else {
        render_lines(os.drop_last()) + "\n"@ + order_line(os.last().0, os.last().1)
    }
}

/// The parse outcome for a raw request body: the bytes decoded as text, then
/// read as a TOML manifest.
pub open spec fn parsed_manifest(b: Seq<u8>) -> Option<Seq<(Seq<char>, int)>> {
    toml_manifest_orders(lossy_str_of(b))
}

/// Outcome of handling a manifest request body.
#[derive(Debug)]
pub enum ManifestOutcome {
    /// The document parsed and held at least one order: the rendered lines.
    Rendered(String),
    /// The document parsed and held no orders: success with an empty body.
    NoContent,
    /// The document was not a well-formed manifest: a client-input error
    /// with a human-readable message.
    InvalidManifest(String),
    /// The content type named a recognized format that is not handled yet.
    UnimplementedFormat,
    /// The content type named no supported format.
    UnsupportedMediaType,
}

/// Relies on `String::from_utf8_lossy` (std): the decoded text is a function
/// of the bytes alone.
#[verifier::external_body]
fn decode_utf8_lossy(b: &[u8]) -> (s: String)
    ensures
        s@ == lossy_str_of(b@),
{
    String::from_utf8_lossy(b).into_owned()
}

/// Relies on the `toml` crate: `str::parse::<toml::Table>` to read the
/// document, `toml::map::Map::get` and `toml::Value::get` to reach
/// `package.metadata.orders`, `toml::Value::as_array` for the order list,
/// and `toml::Value::as_str` / `toml::Value::as_integer` for each order's
/// `item` and `quantity`. Yields `None` exactly when the document is not
/// valid TOML or lacks that shape; otherwise the orders in document order.
#[verifier::external_body]
fn parse_orders_toml(s: &str) -> (r: Option<Vec<(String, i64)>>)
    ensures
        r is Some == toml_manifest_orders(s@) is Some,
        r matches Some(v) ==> toml_manifest_orders(s@) == Some(orders_model(v@)),
{
    let doc: toml::Table = match s.parse() {
        Ok(t) => t,
        Err(_) => return None,
    };
    let orders = doc.get("package")?.get("metadata")?.get("orders")?.as_array()?;
    let mut out = Vec::new();
    for o in orders {
        out.push((o.get("item")?.as_str()?.to_owned(), o.get("quantity")?.as_integer()?));
    }
    Some(out)
}

/// Narrows each quantity to `u32`, returning `None` when any quantity is
/// negative or too large.
fn checked_orders(orders: &Vec<(String, i64)>) -> (r: Option<Vec<(String, u32)>>)
    ensures
        r is Some == quantities_fit(orders_model(orders@)),
        r matches Some(v) ==> orders_model32(v@) == orders_model(orders@),
{
    let mut out: Vec<(String, u32)> = Vec::new();
    let mut i: usize = 0;
    while i < orders.len()
        invariant
            i <= orders@.len(),
            out@.len() == i,
            forall|j: int| 0 <= j < i ==> 0 <= #[trigger] orders@[j].1 <= u32::MAX,
            forall|j: int| 0 <= j < i ==> #[trigger] out@[j].0@ == orders@[j].0@ && out@[j].1 == orders@[j].1,
        decreases orders@.len() - i,
    {
        let q: i64 = orders[i].1;
        if q < 0 || q > u32::MAX as i64 {
            proof {
                assert(orders_model(orders@)[i as int].1 == orders@[i as int].1);
            }
            return None;
        }
        let item: String = orders[i].0.clone();
        out.push((item, q as u32));
        i += 1;
    }
    proof {
        assert forall|j: int| 0 <= j < orders_model(orders@).len() implies 0 <= #[trigger] orders_model(orders@)[j].1 <= u32::MAX by {
            assert(orders_model(orders@)[j].1 == orders@[j].1);
        }
        assert(orders_model32(out@) =~= orders_model(orders@));
    }
    Some(out)
}

/// Renders the order list: one `"<item>: <quantity>"` line per order, in
/// order, joined by single newlines, with no trailing newline.
fn render_orders(v: &Vec<(String, u32)>) -> (s: String)
    ensures
        s@ == render_lines(orders_model32(v@)),
{
    let ghost os = orders_model32(v@);
    let mut s = String::new();
    let mut k: usize = 0;
    proof {
        assert(s@ =~= render_lines(os.take(0)));
    }
    while k < v.len()
        invariant
            os == orders_model32(v@),
            os.len() == v@.len(),
            k <= v@.len(),
            s@ == render_lines(os.take(k as int)),
        decreases v@.len() - k,
    {
        proof {
            assert(os[k as int] == (v@[k as int].0@, v@[k as int].1 as int));
        }
        if k > 0 {
            s.append("\n");
        }
        s.append(v[k].0.as_str());
        s.append(": ");
        let qs = crate::decimal::u32_to_string(v[k].1);
        s.append(qs.as_str());
        proof {
            let t = os.take(k as int);
            let t1 = os.take(k as int + 1);
            assert(t1 =~= t.push(os[k as int]));
            assert(t1.drop_last() =~= t);
            assert(t1.last() == os[k as int]);
            if k == 0 {
                assert(s@ =~= order_line(os[0].0, os[0].1));
            } else {
                assert(s@ =~= render_lines(t) + "\n"@ + order_line(os[k as int].0, os[k as int].1));
            }
        }
        k += 1;
    }
    proof {
        assert(os.take(v@.len() as int) =~= os);
    }
    s
}

/// Handles a manifest request body, given its declared content type.
///
/// For `application/toml` the body is decoded as text and parsed; a document
/// without the manifest shape, or with a quantity outside the unsigned
/// 32-bit range, is a client-input error. A parsed manifest with no orders
/// is the distinct no-content success; otherwise the orders are rendered,
/// one line each, joined by single newlines. `application/json` is a
/// recognized format that is not handled yet, and any other content type is
/// unsupported.
pub fn manifest(content_type: &str, body: &[u8]) -> (out: ManifestOutcome)
    ensures
        content_type@ == "application/toml"@ && parsed_manifest(body@) is None ==> (out matches ManifestOutcome::InvalidManifest(m) && m@ == "Invalid manifest"@),
        content_type@ == "application/toml"@ && parsed_manifest(body@) is Some && !quantities_fit(parsed_manifest(body@)->0) ==> (out matches ManifestOutcome::InvalidManifest(m) && m@ == "Invalid manifest"@),
        content_type@ == "application/toml"@ && parsed_manifest(body@) is Some && quantities_fit(parsed_manifest(body@)->0) && parsed_manifest(body@)->0.len() == 0 ==> out is NoContent,
        content_type@ == "application/toml"@ && parsed_manifest(body@) is Some && quantities_fit(parsed_manifest(body@)->0) && parsed_manifest(body@)->0.len() > 0 ==> (out matches ManifestOutcome::Rendered(t) && t@ == render_lines(parsed_manifest(body@)->0)),
        content_type@ != "application/toml"@ && content_type@ == "application/json"@ ==> out is UnimplementedFormat,
        content_type@ != "application/toml"@ && content_type@ != "application/json"@ ==> out is UnsupportedMediaType,
{
    let ct: String = content_type.to_owned();
    if ct == String::from_str("application/toml") {
        let text = decode_utf8_lossy(body);
        match parse_orders_toml(text.as_str()) {
            None => ManifestOutcome::InvalidManifest(String::from_str("Invalid manifest")),
            Some(orders) => match checked_orders(&orders) {
                None => ManifestOutcome::InvalidManifest(String::from_str("Invalid manifest")),
                Some(os) => {
                    if os.len() == 0 {
                        ManifestOutcome::NoContent
                    } else {
                        ManifestOutcome::Rendered(render_orders(&os))
                    }
                },
            },
        }
    } else if ct == String::from_str("application/json") {
        ManifestOutcome::UnimplementedFormat
    } else {
        ManifestOutcome::UnsupportedMediaType
    }
}

} // verus!
