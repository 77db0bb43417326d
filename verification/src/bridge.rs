//! Conversions between the editor's state and requests.
use vstd::prelude::*;
use vstd::utf8::encode_utf8;
use crate::app_state::{TabState, KeyValueRow};
use crate::ids::{new_id, now, is_v4_uuid};
use crate::models::{HttpMethod, KeyValuePair, PairView, pairs_view, BodyType, BodyView, RawContentType, RequestDefinition, RequestView};
use crate::text::{push_str, seq_join, views, join, to_owned_string};

verus! {

/// The pair a row stands for, without a description.
pub open spec fn row_pair(row: KeyValueRow) -> PairView {
    PairView { key: row.key@, value: row.value@, enabled: row.enabled, description: None }
}

/// The pairs of the enabled rows that have a key or a value, in order.
pub open spec fn rows_pairs(rows: Seq<KeyValueRow>) -> Seq<PairView>
    decreases rows.len(),
{
    if rows.len() == 0 {
        Seq::empty()
    } else {
        let rest = rows_pairs(rows.drop_last());
        let r = rows.last();
        if r.enabled && (r.key@.len() > 0 || r.value@.len() > 0) {
            rest.push(row_pair(r))
        } else {
            rest
        }
    }
}

/// A row's key, value and enabled flag.
pub open spec fn row_fields(row: KeyValueRow) -> (Seq<char>, Seq<char>, bool) {
    (row.key@, row.value@, row.enabled)
}

/// Converts a row to a pair without a description.
pub fn key_value_row_to_pair(row: &KeyValueRow) -> (r: KeyValuePair)
    ensures
        r@ == row_pair(*row),
{
    KeyValuePair { key: row.key.clone(), value: row.value.clone(), enabled: row.enabled, description: None }
}

/// Converts a pair to a row with a fresh id.
pub fn key_value_pair_to_row(pair: &KeyValuePair) -> (r: KeyValueRow)
    ensures
        row_fields(r) == (pair.key@, pair.value@, pair.enabled),
        is_v4_uuid(r.id),
{
    KeyValueRow { id: new_id(), enabled: pair.enabled, key: pair.key.clone(), value: pair.value.clone() }
}

/// The pairs of the enabled rows that have a key or a value, in order.
pub fn key_value_rows_to_pairs(rows: &[KeyValueRow]) -> (r: Vec<KeyValuePair>)
    ensures
        pairs_view(r@) == rows_pairs(rows@),
{
    let mut r: Vec<KeyValuePair> = Vec::new();
    let mut i: usize = 0;
    while i < rows.len()
        invariant
            0 <= i <= rows@.len(),
            pairs_view(r@) == rows_pairs(rows@.take(i as int)),
        decreases rows@.len() - i,
    {
        let row = &rows[i];
        proof {
            assert(rows@.take(i + 1).drop_last() =~= rows@.take(i as int));
            assert(rows@.take(i + 1).last() == *row);
        }
        if row.enabled && (!row.key.as_str().is_empty() || !row.value.as_str().is_empty()) {
            let ghost prev = r@;
            let p = key_value_row_to_pair(row);
            r.push(p);
            assert(pairs_view(r@) =~= pairs_view(prev).push(p@));
        }
        i = i + 1;
    }
    assert(rows@.take(rows@.len() as int) =~= rows@);
    r
}

/// One row per pair, in order, each with a fresh id.
pub fn key_value_pairs_to_rows(pairs: &[KeyValuePair]) -> (r: Vec<KeyValueRow>)
    ensures
        r@.len() == pairs@.len(),
        forall|i: int| 0 <= i < pairs@.len() ==> #[trigger] row_fields(r@[i]) == (pairs@[i].key@, pairs@[i].value@, pairs@[i].enabled),
{
    let mut r: Vec<KeyValueRow> = Vec::new();
    let mut i: usize = 0;
    while i < pairs.len()
        invariant
            0 <= i <= pairs@.len(),
            r@.len() == i,
            forall|k: int| 0 <= k < i ==> #[trigger] row_fields(r@[k]) == (pairs@[k].key@, pairs@[k].value@, pairs@[k].enabled),
        decreases pairs@.len() - i,
    {
        r.push(key_value_pair_to_row(&pairs[i]));
        i = i + 1;
    }
    r
}

/// An editor's text as a body: none when empty, raw text otherwise.
pub open spec fn body_of_text(content: Seq<char>, content_type: RawContentType) -> BodyView {
    if content.len() == 0 {
        BodyView::NoBody
    } else {
        BodyView::Raw { content, content_type }
    }
}

/// The body for an editor's text: none when the text is empty.
pub fn body_string_to_body_type(content: String, content_type: RawContentType) -> (r: BodyType)
    ensures
        r@ == body_of_text(content@, content_type),
{
    if content.as_str().is_empty() {
        BodyType::NoBody
    } else {
        BodyType::Raw { content, content_type }
    }
}

/// Whether a byte is sent as it is by percent-encoding: ASCII letters and digits
/// and `-`, `.`, `_`, `~`.
pub open spec fn is_unreserved(b: u8) -> bool {
    (0x30 <= b <= 0x39) || (0x41 <= b <= 0x5A) || (0x61 <= b <= 0x7A) || b == 0x2D || b == 0x2E || b
        == 0x5F || b == 0x7E
}

/// The upper-case hexadecimal digit of a value below 16.
pub open spec fn upper_hex(d: u8) -> char {
    if d < 10 {
        (0x30 + d) as char
    } else {
        (0x41 + d - 10) as char
    }
}

/// The percent-encoding of bytes: an unreserved byte stands for itself, any other
/// becomes `%` and two upper-case hexadecimal digits.
pub open spec fn percent_encoded(bs: Seq<u8>) -> Seq<char>
    decreases bs.len(),
{
    if bs.len() == 0 {
        Seq::empty()
    } else {
        let b = bs[0];
        let head = if is_unreserved(b) {
            seq![b as char]
        } else {
            seq!['%', upper_hex(b / 16), upper_hex(b % 16)]
        };
        head + percent_encoded(bs.drop_first())
    }
}

/// `urlencoding::encode`: every byte of the text's UTF-8 encoding except ASCII
/// letters, digits and `-`, `.`, `_`, `~` becomes `%XX` with upper-case hexadecimal
/// digits; as the crate's source does it.
#[verifier::external_body]
fn url_encode(s: &str) -> (r: String)
    ensures
        r@ == percent_encoded(encode_utf8(s@)),
{
    urlencoding::encode(s).into_owned()
}

/// The `key=value` items of the enabled pairs, both percent-encoded, in order.
pub open spec fn form_items(ps: Seq<PairView>) -> Seq<Seq<char>>
    decreases ps.len(),
{
    if ps.len() == 0 {
        Seq::empty()
    } else {
        let rest = form_items(ps.drop_last());
        let p = ps.last();
        if p.enabled {
            rest.push(percent_encoded(encode_utf8(p.key)) + seq!['='] + percent_encoded(encode_utf8(p.value)))
        } else {
            rest
        }
    }
}

/// The text an editor shows for a body: none for no body, the content of a raw
/// body, and for a form the enabled fields URL-encoded and joined with `&` (none
/// when no field is enabled).
pub open spec fn body_text_of(b: BodyView) -> Option<Seq<char>> {
    match b {
        BodyView::NoBody => None,
        BodyView::Raw { content, .. } => Some(content),
        BodyView::Form(ps) => if form_items(ps).len() == 0 {
            None
        } else {
            Some(seq_join(form_items(ps), "&"@))
        },
    }
}

/// The text an editor shows for a body.
pub fn body_type_to_string(body: &BodyType) -> (r: Option<String>)
    ensures
        match body_text_of(body@) {
            Some(t) => r matches Some(s) && s@ == t,
            None => r is None,
        },
{
    match body {
        BodyType::NoBody => None,
        BodyType::Raw { content, .. } => Some(content.clone()),
        BodyType::FormUrlEncoded(pairs) => {
            let mut encoded: Vec<String> = Vec::new();
            let mut i: usize = 0;
            while i < pairs.len()
                invariant
                    0 <= i <= pairs@.len(),
                    views(encoded@) == form_items(pairs_view(pairs@).take(i as int)),
                decreases pairs@.len() - i,
            {
                let p = &pairs[i];
                proof {
                    assert(pairs_view(pairs@).take(i + 1).drop_last() =~= pairs_view(pairs@).take(i as int));
                    assert(pairs_view(pairs@).take(i + 1).last() == p@);
                }
                if p.enabled {
                    proof {
                        reveal_strlit("=");
                        assert("="@ =~= seq!['=']);
                    }
                    let mut item = url_encode(p.key.as_str());
                    push_str(&mut item, "=");
                    let v = url_encode(p.value.as_str());
                    push_str(&mut item, v.as_str());
                    let ghost prev = encoded@;
                    encoded.push(item);
                    assert(views(encoded@) =~= views(prev).push(item@));
                }
                i = i + 1;
            }
            assert(pairs_view(pairs@).take(pairs@.len() as int) =~= pairs_view(pairs@));
            if encoded.len() == 0 {
                None
            } else {
                Some(join(&encoded, "&"))
            }
        },
    }
}

/// A request from an editor's parts, created and updated now.
pub fn build_request_from_components(
    request_id: u128,
    name: String,
    method: HttpMethod,
    url: String,
    headers: Vec<KeyValuePair>,
    params: Vec<KeyValuePair>,
    body: BodyType,
) -> (r: RequestDefinition)
    ensures
        r@ == (RequestView {
            id: request_id,
            name: name@,
            method,
            url: url@,
            headers: pairs_view(headers@),
            query_params: pairs_view(params@),
            body: body@,
            created_at: r@.created_at,
            updated_at: r@.created_at,
        }),
{
    let t = now();
    RequestDefinition {
        id: request_id,
        name,
        method,
        url,
        headers,
        query_params: params,
        body,
        created_at: t,
        updated_at: t,
    }
}

/// The request a tab holds: a copy of its draft, updated now.
pub fn build_request_from_tab(tab: &TabState) -> (r: RequestDefinition)
    ensures
        r@ == (RequestView { updated_at: r@.updated_at, ..tab.draft@ }),
{
    let mut request = tab.draft.duplicate();
    request.updated_at = now();
    request
}

/// A fresh tab on a copy of a request, in a collection to be set by the caller
/// (a fresh id until then).
pub fn populate_tab_from_request(req: &RequestDefinition) -> (r: TabState)
    ensures
        r.request_id == req@.id,
        r.draft@ == req@,
        r.last_response is None,
        !r.is_loading,
        !r.is_dirty,
        is_v4_uuid(r.collection_id),
{
    TabState {
        request_id: req.id,
        collection_id: new_id(),
        draft: req.duplicate(),
        last_response: None,
        is_loading: false,
        is_dirty: false,
    }
}

/// A pair turned into a row and back is the same pair, without its description.
pub proof fn law_pair_row_round_trip(p: PairView, row: KeyValueRow)
    requires
        row_fields(row) == (p.key, p.value, p.enabled),
    ensures
        row_pair(row) == (PairView { description: None, ..p }),
{
}

/// A raw body turned into editor text and back is the same body; an empty text
/// stands for no body.
pub proof fn law_body_text_round_trip(content: Seq<char>, content_type: RawContentType)
    ensures
        content.len() > 0 ==> body_text_of(body_of_text(content, content_type)) == Some(content),
        content.len() > 0 ==> body_of_text(
            body_text_of(BodyView::Raw { content, content_type }).unwrap(),
            content_type,
        ) == (BodyView::Raw { content, content_type }),
        body_of_text(Seq::empty(), content_type) == BodyView::NoBody,
{
}

} // verus!
