//! The order in which the probe lists HID collections: by vendor, product,
//! interface, usage page, usage and finally device path, so that list
//! positions stay put between runs.
use vstd::prelude::*;

use crate::probe::HidCollection;

verus! {

broadcast use vstd::seq_lib::group_to_multiset_ensures;

/// Logitech's USB vendor identifier.
pub const LOGITECH_VENDOR_ID: u16 = 0x046d;

/// Whether byte string `a` sorts strictly before `b`: at the first byte where
/// they differ, or by being a proper prefix.
pub open spec fn bytes_before(a: Seq<u8>, b: Seq<u8>) -> bool
    decreases a.len(),
{
    if a.len() == 0 {
        b.len() > 0
    } else if b.len() == 0 {
        false
    } else if a[0] != b[0] {
        a[0] < b[0]
    } else {
        bytes_before(a.drop_first(), b.drop_first())
    }
}

/// The byte order is a strict total order.
pub proof fn lemma_bytes_order(a: Seq<u8>, b: Seq<u8>, c: Seq<u8>)
    ensures
        !bytes_before(a, a),
        bytes_before(a, b) ==> !bytes_before(b, a),
        a != b ==> bytes_before(a, b) || bytes_before(b, a),
        bytes_before(a, b) && bytes_before(b, c) ==> bytes_before(a, c),
    decreases a.len(),
{
    if a.len() > 0 && b.len() > 0 && c.len() > 0 {
        lemma_bytes_order(a.drop_first(), b.drop_first(), c.drop_first());
    } else if a.len() > 0 && b.len() > 0 {
        lemma_bytes_order(a.drop_first(), b.drop_first(), b.drop_first());
    } else if a.len() > 0 {
        lemma_bytes_order(a.drop_first(), a.drop_first(), a.drop_first());
    }
    if a.len() > 0 && b.len() > 0 && a != b && a[0] == b[0] {
        assert(a.drop_first() != b.drop_first()) by {
            if a.drop_first() == b.drop_first() {
                assert(a =~= seq![a[0]] + a.drop_first());
                assert(b =~= seq![b[0]] + b.drop_first());
            }
        }
    }
    if a.len() == 0 && b.len() == 0 {
        assert(a =~= b);
    }
}

/// Whether collection `a` is listed strictly before `b`.
pub open spec fn listed_before(a: HidCollection, b: HidCollection) -> bool {
    if a.vendor_id != b.vendor_id {
        a.vendor_id < b.vendor_id
    } else if a.product_id != b.product_id {
        a.product_id < b.product_id
    } else if a.interface_number != b.interface_number {
        a.interface_number < b.interface_number
    } else if a.usage_page != b.usage_page {
        a.usage_page < b.usage_page
    } else if a.usage != b.usage {
        a.usage < b.usage
    } else {
        bytes_before(a.path@, b.path@)
    }
}

/// Listing order, with ties allowed.
pub open spec fn listed_no_later(a: HidCollection, b: HidCollection) -> bool {
    !listed_before(b, a)
}

/// Whether a listing is in order.
pub open spec fn in_listing_order(s: Seq<HidCollection>) -> bool {
    forall|i: int, j: int| 0 <= i < j < s.len() ==> listed_no_later(#[trigger] s[i], #[trigger] s[j])
}

/// Listing order is a total preorder.
pub proof fn lemma_listing_order(a: HidCollection, b: HidCollection, c: HidCollection)
    ensures
        listed_before(a, b) ==> !listed_before(b, a),
        listed_no_later(a, b) || listed_no_later(b, a),
        listed_no_later(a, b) && listed_no_later(b, c) ==> listed_no_later(a, c),
{
    lemma_bytes_order(a.path@, b.path@, c.path@);
    lemma_bytes_order(b.path@, c.path@, a.path@);
    lemma_bytes_order(c.path@, a.path@, b.path@);
    lemma_bytes_order(a.path@, c.path@, b.path@);
    lemma_bytes_order(b.path@, a.path@, c.path@);
    lemma_bytes_order(c.path@, b.path@, a.path@);
}

/// Whether the listing shows a collection: every vendor's with `all`, else
/// only Logitech's.
pub open spec fn shown(all: bool) -> spec_fn(HidCollection) -> bool {
    |d: HidCollection| all || d.vendor_id == LOGITECH_VENDOR_ID
}

fn before(a: &HidCollection, b: &HidCollection) -> (r: bool)
    ensures
        r == listed_before(*a, *b),
{
    if a.vendor_id != b.vendor_id {
        return a.vendor_id < b.vendor_id;
    }
    if a.product_id != b.product_id {
        return a.product_id < b.product_id;
    }
    if a.interface_number != b.interface_number {
        return a.interface_number < b.interface_number;
    }
    if a.usage_page != b.usage_page {
        return a.usage_page < b.usage_page;
    }
    if a.usage != b.usage {
        return a.usage < b.usage;
    }
    let x = &a.path;
    let y = &b.path;
    let mut i: usize = 0;
    assert(x@.skip(0) =~= x@);
    assert(y@.skip(0) =~= y@);
    while i < x.len() && i < y.len() && x[i] == y[i]
        invariant
            i <= x.len(),
            i <= y.len(),
            bytes_before(x@, y@) == bytes_before(x@.skip(i as int), y@.skip(i as int)),
        decreases x.len() - i,
    {
        assert(x@.skip(i as int).drop_first() =~= x@.skip(i as int + 1));
        assert(y@.skip(i as int).drop_first() =~= y@.skip(i as int + 1));
        i += 1;
    }
    if i < x.len() && i < y.len() {
        x[i] < y[i]
    } else {
        i == x.len() && i < y.len()
    }
}

/// The collections the listing shows, in listing order: every vendor's with
/// `all`, else only Logitech's.
pub fn sorted_devices(devices: Vec<HidCollection>, all: bool) -> (r: Vec<HidCollection>)
    ensures
        r@.to_multiset() == devices@.filter(shown(all)).to_multiset(),
        in_listing_order(r@),
{
    let ghost input = devices@;
    let mut rest = devices;
    let mut listed: Vec<HidCollection> = Vec::new();
    let ghost mut k: int = 0;
    proof {
        reveal(Seq::filter);
        assert(input.take(0) =~= Seq::<HidCollection>::empty());
        assert(input.skip(0) =~= input);
    }
    while rest.len() > 0
        invariant
            0 <= k <= input.len(),
            rest@ == input.skip(k),
            listed@.to_multiset() == input.take(k).filter(shown(all)).to_multiset(),
            in_listing_order(listed@),
        decreases rest.len(),
    {
        let x = rest.remove(0);
        proof {
            reveal(Seq::filter);
            assert(input.take(k + 1).drop_last() =~= input.take(k));
            assert(input.take(k + 1).last() == input[k]);
            assert(input.skip(k).drop_first() =~= input.skip(k + 1));
            assert(x == input[k]);
        }
        if all || x.vendor_id == LOGITECH_VENDOR_ID {
            let mut j: usize = listed.len();
            while j > 0 && before(&x, &listed[j - 1])
                invariant
                    j <= listed.len(),
                    forall|q: int| j <= q < listed@.len() ==> listed_before(x, #[trigger] listed@[q]),
                decreases j,
            {
                j -= 1;
            }
            let ghost old_listed = listed@;
            listed.insert(j, x);
            proof {
                assert(listed@ == old_listed.insert(j as int, x));
                assert forall|p: int, q: int| 0 <= p < q < listed@.len() implies listed_no_later(
                    #[trigger] listed@[p],
                    #[trigger] listed@[q],
                ) by {
                    if p < j && q == j {
                        lemma_listing_order(old_listed[p], old_listed[j - 1], x);
                        if p < j - 1 {
                            assert(listed_no_later(old_listed[p], old_listed[j - 1]));
                        }
                    } else if p == j {
                        lemma_listing_order(x, old_listed[q - 1], x);
                    } else if p < j && q > j {
                        assert(listed_no_later(old_listed[p], old_listed[q - 1]));
                    } else if p > j {
                        assert(listed_no_later(old_listed[p - 1], old_listed[q - 1]));
                    } else {
                        assert(listed_no_later(old_listed[p], old_listed[q]));
                    }
                }
            }
        }
        proof {
            k = k + 1;
        }
    }
    proof {
        assert(input.take(input.len() as int) =~= input);
    }
    listed
}

} // verus!
