//! Request headers, and the `X-Qiniu-` headers among them that are signed.

use crate::text::{
    append_bytes, append_text, ascii_lower, ascii_upper, to_ascii_lower, to_ascii_upper,
};
use http::header::{HeaderMap, HeaderValue};
use vstd::prelude::*;
use vstd::relations::{sorted_by, total_ordering};
use vstd::slice::slice_to_vec;
use vstd::utf8::encode_utf8;

verus! {

/// `HeaderMap` of the `http` crate; the verifier sees nothing inside it.
#[verifier::external_type_specification]
#[verifier::external_body]
#[verifier::reject_recursive_types(T)]
pub struct ExHeaderMap<T>(HeaderMap<T>);

/// `HeaderValue` of the `http` crate; the verifier sees nothing inside it.
#[verifier::external_type_specification]
#[verifier::external_body]
pub struct ExHeaderValue(HeaderValue);

/// One header of a request: the bytes of its name and of its value.
#[derive(Debug, PartialEq, Eq)]
pub struct Header {
    pub name: Vec<u8>,
    pub value: Vec<u8>,
}

impl View for Header {
    type V = (Seq<u8>, Seq<u8>);

    open spec fn view(&self) -> (Seq<u8>, Seq<u8>) {
        (self.name@, self.value@)
    }
}

/// A list of headers as pairs of name and value.
pub open spec fn header_views(headers: Seq<Header>) -> Seq<(Seq<u8>, Seq<u8>)> {
    headers.map_values(|h: Header| h@)
}

/// The headers that a `HeaderMap` holds, each as the bytes of its name and of
/// its value, in the order in which the map hands them out. A name with
/// several values stands once for each of them.
pub uninterp spec fn header_entries(headers: HeaderMap<HeaderValue>) -> Seq<(Seq<u8>, Seq<u8>)>;

/// Walks `HeaderMap::iter` and copies each pair out, the name by
/// `HeaderName::as_str`, the value by `HeaderValue::as_bytes`.
///
/// Trusted: the list returned is the one that [`header_entries`] names.
#[verifier::external_body]
pub(crate) fn entries_of(headers: &HeaderMap<HeaderValue>) -> (entries: Vec<Header>)
    ensures
        header_views(entries@) == header_entries(*headers),
{
    headers.iter().map(
        |(name, value)|
            Header { name: name.as_str().as_bytes().to_vec(), value: value.as_bytes().to_vec() },
    ).collect()
}

/// A header name in its canonical casing: the first byte and each byte after
/// a `-` in upper case, every other byte in lower case.
pub open spec fn canonical_name(name: Seq<u8>) -> Seq<u8> {
    Seq::new(
        name.len(),
        |i: int|
            if i == 0 || name[i - 1] == 0x2d {
                ascii_upper(name[i])
            } else {
                ascii_lower(name[i])
            },
    )
}

/// The prefix of the names that are signed.
pub open spec fn signed_prefix() -> Seq<u8> {
    encode_utf8("X-Qiniu-"@)
}

/// Whether a header of this canonical name is signed: the name begins with
/// the prefix and goes on after it.
pub open spec fn is_signed_name(name: Seq<u8>) -> bool {
    name.len() > signed_prefix().len() && signed_prefix().is_prefix_of(name)
}

/// The order of byte strings: by the first byte in which they differ, a
/// string before each of its extensions.
pub open spec fn bytes_le(a: Seq<u8>, b: Seq<u8>) -> bool
    decreases a.len(),
{
    if a.len() == 0 {
        true
    } else if b.len() == 0 {
        false
    } else if a[0] != b[0] {
        a[0] < b[0]
    } else {
        bytes_le(a.skip(1), b.skip(1))
    }
}

/// The order of headers: by name, and among equal names by value.
pub open spec fn entry_le(x: (Seq<u8>, Seq<u8>), y: (Seq<u8>, Seq<u8>)) -> bool {
    if x.0 == y.0 {
        bytes_le(x.1, y.1)
    } else {
        bytes_le(x.0, y.0)
    }
}

/// [`entry_le`] as a relation.
pub open spec fn entry_order() -> spec_fn((Seq<u8>, Seq<u8>), (Seq<u8>, Seq<u8>)) -> bool {
    |x: (Seq<u8>, Seq<u8>), y: (Seq<u8>, Seq<u8>)| entry_le(x, y)
}

/// A header with its name in canonical casing.
pub open spec fn canonical_entry(e: (Seq<u8>, Seq<u8>)) -> (Seq<u8>, Seq<u8>) {
    (canonical_name(e.0), e.1)
}

/// The headers with canonical names that are signed, in the order of `entries`.
pub open spec fn selected_headers(entries: Seq<(Seq<u8>, Seq<u8>)>) -> Seq<(Seq<u8>, Seq<u8>)> {
    entries.map_values(|e: (Seq<u8>, Seq<u8>)| canonical_entry(e)).filter(
        |e: (Seq<u8>, Seq<u8>)| is_signed_name(e.0),
    )
}

/// The signed headers of a request: those of `entries` whose canonical name
/// is signed, under that name, sorted by [`entry_le`].
pub open spec fn signed_headers(entries: Seq<(Seq<u8>, Seq<u8>)>) -> Seq<(Seq<u8>, Seq<u8>)> {
    selected_headers(entries).sort_by(entry_order())
}

/// One header as a line: name, colon, space, value, newline.
pub open spec fn header_line(e: (Seq<u8>, Seq<u8>)) -> Seq<u8> {
    e.0 + encode_utf8(": "@) + e.1 + encode_utf8("\n"@)
}

/// The lines of `entries`, one after the other.
pub open spec fn header_lines(entries: Seq<(Seq<u8>, Seq<u8>)>) -> Seq<u8>
    decreases entries.len(),
{
    if entries.len() == 0 {
        Seq::empty()
    } else {
        header_lines(entries.drop_last()) + header_line(entries.last())
    }
}

/// The block of signed headers in a canonical request; empty where no header
/// is signed.
pub open spec fn x_qiniu_block(entries: Seq<(Seq<u8>, Seq<u8>)>) -> Seq<u8> {
    header_lines(signed_headers(entries))
}

pub proof fn lemma_bytes_le_reflexive(a: Seq<u8>)
    ensures
        bytes_le(a, a),
    decreases a.len(),
{
    if a.len() > 0 {
        lemma_bytes_le_reflexive(a.skip(1));
    }
}

pub proof fn lemma_bytes_le_antisymmetric(a: Seq<u8>, b: Seq<u8>)
    requires
        bytes_le(a, b),
        bytes_le(b, a),
    ensures
        a == b,
    decreases a.len(),
{
    if a.len() > 0 && b.len() > 0 {
        lemma_bytes_le_antisymmetric(a.skip(1), b.skip(1));
        assert(b =~= seq![b[0]] + b.skip(1));
    } else {
    }
}

pub proof fn lemma_bytes_le_transitive(a: Seq<u8>, b: Seq<u8>, c: Seq<u8>)
    requires
        bytes_le(a, b),
        bytes_le(b, c),
    ensures
        bytes_le(a, c),
    decreases a.len(),
{
    if a.len() > 0 && a[0] == b[0] && b[0] == c[0] {
        lemma_bytes_le_transitive(a.skip(1), b.skip(1), c.skip(1));
    }
}

pub proof fn lemma_bytes_le_total(a: Seq<u8>, b: Seq<u8>)
    ensures
        bytes_le(a, b) || bytes_le(b, a),
    decreases a.len(),
{
    if a.len() > 0 && b.len() > 0 && a[0] == b[0] {
        lemma_bytes_le_total(a.skip(1), b.skip(1));
    }
}

/// The order of headers is a total order.
pub proof fn lemma_entry_order_total()
    ensures
        total_ordering(entry_order()),
{
    let r = entry_order();
    assert forall|x: (Seq<u8>, Seq<u8>)| #[trigger] r(x, x) by {
        lemma_bytes_le_reflexive(x.1);
    }
    assert forall|x: (Seq<u8>, Seq<u8>), y: (Seq<u8>, Seq<u8>)| #[trigger]
        r(x, y) && #[trigger] r(y, x) implies x == y by {
        if x.0 == y.0 {
            lemma_bytes_le_antisymmetric(x.1, y.1);
        } else {
            lemma_bytes_le_antisymmetric(x.0, y.0);
        }
    }
    assert forall|x: (Seq<u8>, Seq<u8>), y: (Seq<u8>, Seq<u8>), z: (Seq<u8>, Seq<u8>)| #[trigger]
        r(x, y) && #[trigger] r(y, z) implies r(x, z) by {
        if x.0 == y.0 && y.0 == z.0 {
            lemma_bytes_le_transitive(x.1, y.1, z.1);
        } else if x.0 != y.0 && y.0 != z.0 {
            lemma_bytes_le_transitive(x.0, y.0, z.0);
            if x.0 == z.0 {
                lemma_bytes_le_antisymmetric(x.0, y.0);
            }
        }
    }
    assert forall|x: (Seq<u8>, Seq<u8>), y: (Seq<u8>, Seq<u8>)| #[trigger] r(x, y) || #[trigger] r(
        y,
        x,
    ) by {
        lemma_bytes_le_total(x.0, y.0);
        lemma_bytes_le_total(x.1, y.1);
    }
}

/// Writes a header name in its canonical casing.
pub fn canonicalize_name(name: &[u8]) -> (out: Vec<u8>)
    ensures
        out@ == canonical_name(name@),
{
    let mut out: Vec<u8> = Vec::new();
    let mut i: usize = 0;
    while i < name.len()
        invariant
            i <= name@.len(),
            out@ == canonical_name(name@).take(i as int),
        decreases name@.len() - i,
    {
        let b = name[i];
        let c = if i == 0 || name[i - 1] == 0x2d {
            to_ascii_upper(b)
        } else {
            to_ascii_lower(b)
        };
        out.push(c);
        i += 1;
    }
    out
}

/// Tells whether a header of canonical name `name` is signed.
pub fn is_signed(name: &[u8]) -> (r: bool)
    ensures
        r == is_signed_name(name@),
{
    let prefix = "X-Qiniu-".as_bytes();
    if name.len() <= prefix.len() {
        return false;
    }
    let mut i: usize = 0;
    while i < prefix.len()
        invariant
            prefix@ == signed_prefix(),
            prefix@.len() < name@.len(),
            i <= prefix@.len(),
            forall|k: int| 0 <= k < i ==> name@[k] == prefix@[k],
        decreases prefix@.len() - i,
    {
        if name[i] != prefix[i] {
            return false;
        }
        i += 1;
    }
    true
}

/// Compares two byte strings in the order of [`bytes_le`].
pub fn bytes_precede(a: &[u8], b: &[u8]) -> (r: bool)
    ensures
        r == bytes_le(a@, b@),
{
    let mut i: usize = 0;
    assert(a@.skip(0) =~= a@ && b@.skip(0) =~= b@);
    while i < a.len() && i < b.len()
        invariant
            i <= a@.len(),
            i <= b@.len(),
            bytes_le(a@, b@) == bytes_le(a@.skip(i as int), b@.skip(i as int)),
        decreases a@.len() - i,
    {
        if a[i] != b[i] {
            return a[i] < b[i];
        }
        assert(a@.skip(i as int).skip(1) =~= a@.skip(i + 1));
        assert(b@.skip(i as int).skip(1) =~= b@.skip(i + 1));
        i += 1;
    }
    a.len() <= b.len()
}

/// Tells whether two byte strings are the same.
pub fn bytes_equal(a: &[u8], b: &[u8]) -> (r: bool)
    ensures
        r == (a@ == b@),
{
    if a.len() != b.len() {
        return false;
    }
    let mut i: usize = 0;
    while i < a.len()
        invariant
            a@.len() == b@.len(),
            i <= a@.len(),
            forall|k: int| 0 <= k < i ==> a@[k] == b@[k],
        decreases a@.len() - i,
    {
        if a[i] != b[i] {
            return false;
        }
        i += 1;
    }
    assert(a@ =~= b@);
    true
}

/// Compares two headers in the order of [`entry_le`].
pub fn header_precedes(x: &Header, y: &Header) -> (r: bool)
    ensures
        r == entry_le(x@, y@),
{
    if bytes_equal(x.name.as_slice(), y.name.as_slice()) {
        bytes_precede(x.value.as_slice(), y.value.as_slice())
    } else {
        bytes_precede(x.name.as_slice(), y.name.as_slice())
    }
}

/// Puts `h` into a sorted list at its place.
fn insert_sorted(sorted: &mut Vec<Header>, h: Header)
    requires
        sorted_by(header_views(old(sorted)@), entry_order()),
    ensures
        sorted_by(header_views(final(sorted)@), entry_order()),
        header_views(final(sorted)@).to_multiset() == header_views(
            old(sorted)@,
        ).to_multiset().insert(h@),
{
    broadcast use vstd::seq_lib::to_multiset_insert;

    let ghost before = header_views(sorted@);
    let mut pos: usize = 0;
    while pos < sorted.len() && header_precedes(&sorted[pos], &h)
        invariant
            pos <= sorted@.len(),
            sorted@ == old(sorted)@,
            before == header_views(sorted@),
            forall|k: int| 0 <= k < pos ==> entry_le(#[trigger] before[k], h@),
        decreases sorted@.len() - pos,
    {
        pos += 1;
    }
    sorted.insert(pos, h);
    proof {
        let after = header_views(sorted@);
        lemma_entry_order_total();
        assert(after =~= before.insert(pos as int, h@));
        assert forall|i: int, j: int| 0 <= i < j < after.len() implies entry_order()(
            after[i],
            after[j],
        ) by {
            if i == pos {
                // `h` went in before the first header that does not precede it.
                assert(entry_order()(before[pos as int], h@) || entry_order()(
                    h@,
                    before[pos as int],
                ));
                assert(entry_order()(h@, before[pos as int]) && entry_order()(
                    before[pos as int],
                    before[j - 1],
                ) ==> entry_order()(h@, before[j - 1]));
            }
        }
    }
}

/// Picks the signed headers out of `headers`, gives each its canonical name,
/// and sorts them.
pub fn collect_signed(headers: &Vec<Header>) -> (sorted: Vec<Header>)
    ensures
        header_views(sorted@) == signed_headers(header_views(headers@)),
{
    let ghost named = header_views(headers@).map_values(
        |e: (Seq<u8>, Seq<u8>)| canonical_entry(e),
    );
    let ghost wanted = |e: (Seq<u8>, Seq<u8>)| is_signed_name(e.0);
    let mut sorted: Vec<Header> = Vec::new();
    let mut i: usize = 0;
    proof {
        reveal(Seq::filter);
        assert(named.take(0).filter(wanted) =~= Seq::empty());
        assert(header_views(sorted@) =~= Seq::empty());
    }
    while i < headers.len()
        invariant
            i <= headers@.len(),
            named == header_views(headers@).map_values(|e: (Seq<u8>, Seq<u8>)| canonical_entry(e)),
            wanted == |e: (Seq<u8>, Seq<u8>)| is_signed_name(e.0),
            sorted_by(header_views(sorted@), entry_order()),
            header_views(sorted@).to_multiset() == named.take(i as int).filter(
                wanted,
            ).to_multiset(),
        decreases headers@.len() - i,
    {
        let name = canonicalize_name(headers[i].name.as_slice());
        proof {
            reveal(Seq::filter);
            assert(named.take(i + 1).drop_last() =~= named.take(i as int));
        }
        if is_signed(name.as_slice()) {
            let value = slice_to_vec(headers[i].value.as_slice());
            let h = Header { name, value };
            insert_sorted(&mut sorted, h);
            proof {
                vstd::seq_lib::to_multiset_build(named.take(i as int).filter(wanted), h@);
            }
        }
        i += 1;
    }
    proof {
        assert(named.take(i as int) =~= named);
        let picked = named.filter(wanted);
        lemma_entry_order_total();
        picked.lemma_sort_by_ensures(entry_order());
        vstd::seq_lib::lemma_sorted_unique(
            header_views(sorted@),
            picked.sort_by(entry_order()),
            entry_order(),
        );
    }
    sorted
}

/// Appends the block of signed headers of `headers` to `buf`.
pub fn append_x_qiniu_block(buf: &mut Vec<u8>, headers: &Vec<Header>)
    ensures
        final(buf)@ == old(buf)@ + x_qiniu_block(header_views(headers@)),
{
    let sorted = collect_signed(headers);
    let ghost lines = header_views(sorted@);
    let mut i: usize = 0;
    while i < sorted.len()
        invariant
            i <= sorted@.len(),
            lines == header_views(sorted@),
            buf@ == old(buf)@ + header_lines(lines.take(i as int)),
        decreases sorted@.len() - i,
    {
        append_bytes(buf, sorted[i].name.as_slice());
        append_text(buf, ": ");
        append_bytes(buf, sorted[i].value.as_slice());
        append_text(buf, "\n");
        proof {
            assert(lines.take(i + 1).drop_last() =~= lines.take(i as int));
        }
        i += 1;
    }
    assert(lines.take(i as int) =~= lines);
}

} // verus!
