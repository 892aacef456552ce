//! What each call of the xpay module and each doughnut check does, stated
//! over its inputs and results for all inputs.
use vstd::prelude::*;
use crate::codec::{compact_len, encoded_bytes, le_bytes, pair_list_encoding, pairs_encoding};
use crate::doughnut::{
    certificate_encoding, grants_cennznet, lemma_cennznet_domain,
    validate_result, within_validity, Certificate, Doughnut, DoughnutError,
};
use crate::storage::XPayModel;
use crate::types::{AccountId, AssetId, Balance, DinerEntry, Item, ItemId, Price, XPayError, XPayEvent};
use crate::xpay::{after_purchase_item, after_update_item, purchase_item_result, Payment};
use crate::xpay_diner::{
    after_insert_into_diner, after_purchase_for_diner, after_remove_from_diner, bill_of,
    has_line_for, lemma_first_line_is, lemma_no_line, purchase_for_diner_result,
    remove_from_diner_result,
};

verus! {

/// Ordering `item` for `diner`: where the diner's bill (empty where it has
/// none) has lines for the item, each of them gets one more unpaid unit
/// (modulo 256) and every other line stays; where it has none, the bill
/// gets a last line with one unpaid `item`. Nothing else in storage
/// changes.
pub proof fn lemma_insert_into_diner_behaviour(s: XPayModel, item: ItemId, diner: u32)
    ensures
        after_insert_into_diner(s, item, diner).diners.contains_key(diner),
        after_insert_into_diner(s, item, diner) == (XPayModel {
            diners: s.diners.insert(diner, after_insert_into_diner(s, item, diner).diners[diner]),
            ..s
        }),
        (exists|k: int| 0 <= k < bill_of(s, diner).len() && #[trigger] bill_of(s, diner)[k].0 == item)
            ==> after_insert_into_diner(s, item, diner).diners[diner].len() == bill_of(
            s,
            diner,
        ).len(),
        forall|k: int|
            (exists|l: int| 0 <= l < bill_of(s, diner).len() && #[trigger] bill_of(s, diner)[l].0 == item)
                && 0 <= k < bill_of(s, diner).len() ==> #[trigger] after_insert_into_diner(
                s,
                item,
                diner,
            ).diners[diner][k] == (if bill_of(s, diner)[k].0 == item {
                (item, bill_of(s, diner)[k].1, ((bill_of(s, diner)[k].2 + 1) % 256) as u8)
            } else {
                bill_of(s, diner)[k]
            }),
        (forall|k: int| 0 <= k < bill_of(s, diner).len() ==> #[trigger] bill_of(s, diner)[k].0 != item)
            ==> after_insert_into_diner(s, item, diner).diners[diner] == bill_of(s, diner).push(
            (item, 0u8, 1u8),
        ),
{
    let bill = bill_of(s, diner);
    let t = after_insert_into_diner(s, item, diner);
    assert(t.diners =~= s.diners.insert(diner, t.diners[diner]));
    if exists|k: int| 0 <= k < bill.len() && #[trigger] bill[k].0 == item {
        let k = choose|k: int| 0 <= k < bill.len() && #[trigger] bill[k].0 == item;
        assert(has_line_for(bill, item));
    } else {
        assert(!has_line_for(bill, item));
    }
}

/// Taking `item` back from `diner`'s bill: refused where the diner has no
/// bill or the bill has no line for the item, and then nothing changes.
/// Otherwise, for the first line `j` for the item (at any position), the
/// answer is a refusal exactly where that line has nothing unpaid, and,
/// either way, its unpaid count goes one down (modulo 256) while every
/// other line and the rest of storage stay.
pub proof fn lemma_remove_from_diner_behaviour(s: XPayModel, item: ItemId, diner: u32, j: int)
    ensures
        !s.diners.contains_key(diner) ==> remove_from_diner_result(s, item, diner) == Err::<
            (),
            XPayError,
        >(XPayError::DinerDoesNotExist) && after_remove_from_diner(s, item, diner) == s,
        s.diners.contains_key(diner) && (forall|k: int|
            0 <= k < s.diners[diner].len() ==> s.diners[diner][k].0 != item) ==> remove_from_diner_result(
            s,
            item,
            diner,
        ) == Err::<(), XPayError>(XPayError::ItemNotInDiner) && after_remove_from_diner(
            s,
            item,
            diner,
        ) == s,
        ({
            let bill = s.diners[diner];
            s.diners.contains_key(diner) && 0 <= j < bill.len() && bill[j].0 == item && (forall|
                k: int,
            |
                0 <= k < j ==> bill[k].0 != item) ==> {
                &&& remove_from_diner_result(s, item, diner) == (if bill[j].2 == 0 {
                    Err::<(), XPayError>(XPayError::NoUnpaidItemToRemove)
                } else {
                    Ok(())
                })
                &&& after_remove_from_diner(s, item, diner) == (XPayModel {
                    diners: s.diners.insert(
                        diner,
                        bill.update(j, (item, bill[j].1, ((bill[j].2 + 255) % 256) as u8)),
                    ),
                    ..s
                })
            }
        }),
{
    if s.diners.contains_key(diner) {
        let bill = s.diners[diner];
        if forall|k: int| 0 <= k < bill.len() ==> bill[k].0 != item {
            lemma_no_line(bill, item);
            assert(after_remove_from_diner(s, item, diner).diners =~= s.diners);
        }
        if 0 <= j < bill.len() && bill[j].0 == item && (forall|k: int|
            0 <= k < j ==> bill[k].0 != item) {
            lemma_first_line_is(bill, item, j);
            assert(after_remove_from_diner(s, item, diner).diners =~= s.diners.insert(
                diner,
                bill.update(j, (item, bill[j].1, ((bill[j].2 + 255) % 256) as u8)),
            ));
        }
    }
}

/// Paying for `item` on `diner`'s bill: refused where the diner has no bill
/// or the bill has no line for the item, and then nothing changes.
/// Otherwise, for the first line `j` for the item (at any position), the
/// payment succeeds exactly where that line has something unpaid, and,
/// either way, its paid count goes one up and its unpaid count one down
/// (modulo 256) while every other line and the rest of storage stay.
pub proof fn lemma_purchase_for_diner_behaviour(s: XPayModel, item: ItemId, diner: u32, j: int)
    ensures
        !s.diners.contains_key(diner) ==> purchase_for_diner_result(s, item, diner) == Err::<
            (),
            XPayError,
        >(XPayError::DinerDoesNotExist) && after_purchase_for_diner(s, item, diner) == s,
        s.diners.contains_key(diner) && (forall|k: int|
            0 <= k < s.diners[diner].len() ==> s.diners[diner][k].0 != item)
            ==> purchase_for_diner_result(s, item, diner) == Err::<(), XPayError>(
            XPayError::ItemNotInDiner,
        ) && after_purchase_for_diner(s, item, diner) == s,
        ({
            let bill = s.diners[diner];
            s.diners.contains_key(diner) && 0 <= j < bill.len() && bill[j].0 == item && (forall|
                k: int,
            |
                0 <= k < j ==> bill[k].0 != item) ==> {
                &&& purchase_for_diner_result(s, item, diner) == (if bill[j].2 == 0 {
                    Err::<(), XPayError>(XPayError::NoUnpaidItemToPay)
                } else {
                    Ok(())
                })
                &&& after_purchase_for_diner(s, item, diner) == (XPayModel {
                    diners: s.diners.insert(
                        diner,
                        bill.update(
                            j,
                            (
                                item,
                                ((bill[j].1 + 1) % 256) as u8,
                                ((bill[j].2 + 255) % 256) as u8,
                            ),
                        ),
                    ),
                    ..s
                })
            }
        }),
{
    if s.diners.contains_key(diner) {
        let bill = s.diners[diner];
        if forall|k: int| 0 <= k < bill.len() ==> bill[k].0 != item {
            lemma_no_line(bill, item);
            assert(after_purchase_for_diner(s, item, diner).diners =~= s.diners);
        }
        if 0 <= j < bill.len() && bill[j].0 == item && (forall|k: int|
            0 <= k < j ==> bill[k].0 != item) {
            lemma_first_line_is(bill, item, j);
            assert(after_purchase_for_diner(s, item, diner).diners =~= s.diners.insert(
                diner,
                bill.update(
                    j,
                    (item, ((bill[j].1 + 1) % 256) as u8, ((bill[j].2 + 255) % 256) as u8),
                ),
            ));
        }
    }
}

/// `seller` lists `item` somewhere among the items it created.
pub open spec fn seller_lists(s: XPayModel, seller: AccountId, item: ItemId) -> bool {
    s.owner_item_ids.contains_key(seller) && exists|i: int|
        0 <= i < s.owner_item_ids[seller].len() && s.owner_item_ids[seller][i] == item
}

/// What a purchase answers, in the order of its checks: no price; a seller
/// that does not list the item (at any position of its list); a total price
/// (unit price times quantity) that does not fit a balance. Past those, a
/// price in another asset than the paying one asks for a swap of the total;
/// a price in the paying asset is refused above the buyer's limit, and
/// otherwise follows the bill of `diner`: refused without a bill or without
/// a line for the item, and for the first line `j` for the item, a transfer
/// of the total from buyer to seller exactly where that line has something
/// unpaid.
pub proof fn lemma_purchase_item_behaviour(
    s: XPayModel,
    buyer: AccountId,
    seller: AccountId,
    item: ItemId,
    diner: u32,
    paying_asset_id: AssetId,
    paying_amount_max: Balance,
    quantity: u32,
    j: int,
)
    ensures
        ({
            let r = purchase_item_result(
                s,
                buyer,
                seller,
                item,
                diner,
                paying_asset_id,
                paying_amount_max,
                quantity,
            );
            let price = s.item_prices[item];
            let total = price.1 * quantity;
            let bill = s.diners[diner];
            let listed = s.item_prices.contains_key(item) && seller_lists(s, seller, item);
            &&& !s.item_prices.contains_key(item) ==> r == Err::<Payment, XPayError>(
                XPayError::NoItemPrice,
            )
            &&& s.item_prices.contains_key(item) && !seller_lists(s, seller, item) ==> r == Err::<
                Payment,
                XPayError,
            >(XPayError::SellerHasNoSuchItem)
            &&& listed && total > Balance::MAX ==> r == Err::<Payment, XPayError>(
                XPayError::TotalPriceOverflow,
            )
            &&& listed && total <= Balance::MAX && price.0 != paying_asset_id ==> r == Ok::<
                Payment,
                XPayError,
            >(
                Payment::Swap {
                    buyer,
                    recipient: seller,
                    asset_sold: paying_asset_id,
                    asset_bought: price.0,
                    buy_amount: total as Balance,
                    max_paying_amount: paying_amount_max,
                },
            )
            &&& listed && total <= Balance::MAX && price.0 == paying_asset_id && total
                > paying_amount_max ==> r == Err::<Payment, XPayError>(
                XPayError::PayingPriceTooLow,
            )
            &&& listed && price.0 == paying_asset_id && total <= paying_amount_max
                && !s.diners.contains_key(diner) ==> r == Err::<Payment, XPayError>(
                XPayError::DinerDoesNotExist,
            )
            &&& listed && price.0 == paying_asset_id && total <= paying_amount_max
                && s.diners.contains_key(diner) && (forall|k: int|
                0 <= k < bill.len() ==> bill[k].0 != item) ==> r == Err::<Payment, XPayError>(
                XPayError::ItemNotInDiner,
            )
            &&& listed && price.0 == paying_asset_id && total <= paying_amount_max
                && s.diners.contains_key(diner) && 0 <= j < bill.len() && bill[j].0 == item
                && (forall|k: int| 0 <= k < j ==> bill[k].0 != item) ==> r == (if bill[j].2 == 0 {
                Err::<Payment, XPayError>(XPayError::NoUnpaidItemToPay)
            } else {
                Ok(
                    Payment::Transfer {
                        asset_id: price.0,
                        from: buyer,
                        to: seller,
                        amount: total as Balance,
                    },
                )
            })
        }),
{
    let owned = s.owned_by(seller);
    if seller_lists(s, seller, item) {
        let i = choose|i: int|
            0 <= i < s.owner_item_ids[seller].len() && s.owner_item_ids[seller][i] == item;
        assert(owned[i] == item);
    } else {
        assert(!owned.contains(item));
    }
    let bill = s.diners[diner];
    if forall|k: int| 0 <= k < bill.len() ==> bill[k].0 != item {
        lemma_no_line(bill, item);
    }
    if 0 <= j < bill.len() && bill[j].0 == item && (forall|k: int| 0 <= k < j ==> bill[k].0 != item) {
        lemma_first_line_is(bill, item, j);
    }
}

/// A purchase changes storage only where its price is in the paying asset
/// and it passes the checks before the bill; then only the bill of `diner`
/// changes, as paying for one `item` on it does. A purchase that asks for a
/// swap, or is refused before the bill, changes nothing.
pub proof fn lemma_purchase_item_changes(
    s: XPayModel,
    buyer: AccountId,
    seller: AccountId,
    item: ItemId,
    diner: u32,
    paying_asset_id: AssetId,
    paying_amount_max: Balance,
    quantity: u32,
)
    ensures
        ({
            let r = purchase_item_result(
                s,
                buyer,
                seller,
                item,
                diner,
                paying_asset_id,
                paying_amount_max,
                quantity,
            );
            let t = after_purchase_item(
                s,
                seller,
                item,
                diner,
                paying_asset_id,
                paying_amount_max,
                quantity,
            );
            &&& t == s || t == after_purchase_for_diner(s, item, diner)
            &&& (r matches Ok(Payment::Swap { .. })) ==> t == s
            &&& (r matches Ok(Payment::Transfer { .. })) ==> t == after_purchase_for_diner(
                s,
                item,
                diner,
            )
            &&& (r == Err::<Payment, XPayError>(XPayError::NoItemPrice) || r == Err::<
                Payment,
                XPayError,
            >(XPayError::SellerHasNoSuchItem) || r == Err::<Payment, XPayError>(
                XPayError::TotalPriceOverflow,
            ) || r == Err::<Payment, XPayError>(XPayError::PayingPriceTooLow)) ==> t == s
        }),
{
}

/// After an item is updated, reading it gives back exactly the new item and
/// the new price, whatever they were before; every other item and price
/// stays, the ids in use stay (the item existed), and `ItemUpdated` is the
/// last event.
pub proof fn lemma_update_item_then_read(
    s: XPayModel,
    who: AccountId,
    item_id: ItemId,
    item: Item,
    price: Price,
)
    requires
        s.items.contains_key(item_id),
        s.wf(),
    ensures
        ({
            let t = after_update_item(s, who, item_id, item, price);
            &&& t.items.contains_key(item_id) && t.items[item_id] == item
            &&& t.item_prices.contains_key(item_id) && t.item_prices[item_id] == price
            &&& t.items.dom() == s.items.dom()
            &&& t.item_prices.dom() == s.item_prices.dom()
            &&& forall|k: ItemId|
                k != item_id && #[trigger] s.items.contains_key(k) ==> t.items[k] == s.items[k]
                    && t.item_prices[k] == s.item_prices[k]
            &&& t.next_item_id == s.next_item_id
            &&& t.owner_item_ids == s.owner_item_ids
            &&& t.diners == s.diners
            &&& t.profiles == s.profiles
            &&& t.events == s.events.push(XPayEvent::ItemUpdated(who, item_id, price))
        }),
{
    let t = after_update_item(s, who, item_id, item, price);
    assert(t.items.dom() =~= s.items.dom());
    assert(t.item_prices.dom() =~= s.item_prices.dom());
}

/// The value of bytes read least significant first.
pub open spec fn le_value(bytes: Seq<u8>) -> nat
    decreases bytes.len(),
{
    if bytes.len() == 0 {
        0
    } else {
        bytes[0] as nat + 256 * le_value(bytes.drop_first())
    }
}

/// 256 to the power `count`.
pub open spec fn byte_range(count: nat) -> nat
    decreases count,
{
    if count == 0 {
        1
    } else {
        256 * byte_range((count - 1) as nat)
    }
}

/// Reading back `count` bytes of a value below 256^count gives the value.
pub proof fn lemma_le_bytes_read_back(v: nat, count: nat)
    requires
        v < byte_range(count),
    ensures
        le_bytes(v, count).len() == count,
        le_value(le_bytes(v, count)) == v,
    decreases count,
{
    if count > 0 {
        let rest = byte_range((count - 1) as nat);
        assert(v / 256 < rest) by (nonlinear_arith)
            requires
                v < 256 * rest,
        ;
        lemma_le_bytes_read_back(v / 256, (count - 1) as nat);
        let b = le_bytes(v, count);
        assert(b.drop_first() =~= le_bytes(v / 256, (count - 1) as nat));
    }
}

/// The compact encoding of a length read back: below 2^6 one byte holding
/// four times the length, below 2^14 two bytes holding four times the
/// length plus 1, below 2^30 four bytes holding four times the length plus
/// 2, and otherwise the byte 3 followed by the length in four bytes.
pub proof fn lemma_compact_len_read_back(n: nat)
    requires
        n <= u32::MAX,
    ensures
        n < 0x40 ==> compact_len(n).len() == 1 && le_value(compact_len(n)) == 4 * n,
        0x40 <= n < 0x4000 ==> compact_len(n).len() == 2 && le_value(compact_len(n)) == 4 * n
            + 1,
        0x4000 <= n < 0x4000_0000 ==> compact_len(n).len() == 4 && le_value(compact_len(n)) == 4
            * n + 2,
        0x4000_0000 <= n ==> compact_len(n).len() == 5 && compact_len(n)[0] == 3 && le_value(
            compact_len(n).subrange(1, 5),
        ) == n,
{
    assert(byte_range(1) == 0x100 && byte_range(2) == 0x1_0000 && byte_range(4) == 0x1_0000_0000)
        by {
        reveal_with_fuel(byte_range, 5);
    }
    if n < 0x40 {
        lemma_le_bytes_read_back(n * 4, 1);
    } else if n < 0x4000 {
        lemma_le_bytes_read_back(n * 4 + 1, 2);
    } else if n < 0x4000_0000 {
        lemma_le_bytes_read_back(n * 4 + 2, 4);
    } else {
        lemma_le_bytes_read_back(n, 4);
        assert(compact_len(n).subrange(1, 5) =~= le_bytes(n, 4));
    }
}

/// An encoded byte string is its compact length followed by the string
/// itself, byte for byte.
pub proof fn lemma_encoded_bytes_layout(b: Seq<u8>)
    ensures
        encoded_bytes(b).len() == compact_len(b.len()).len() + b.len(),
        encoded_bytes(b).subrange(0, compact_len(b.len()).len() as int) == compact_len(b.len()),
        encoded_bytes(b).subrange(
            compact_len(b.len()).len() as int,
            encoded_bytes(b).len() as int,
        ) == b,
{
    let c = compact_len(b.len());
    assert(encoded_bytes(b).subrange(0, c.len() as int) =~= c);
    assert(encoded_bytes(b).subrange(c.len() as int, encoded_bytes(b).len() as int) =~= b);
}

/// The pairs of a list are encoded one after another, in order: the
/// encoding of two lists joined is the two encodings joined, and a single
/// pair is its first string's encoding followed by its second's.
pub proof fn lemma_pairs_encoding_in_order(a: Seq<(Vec<u8>, Vec<u8>)>, b: Seq<(Vec<u8>, Vec<u8>)>)
    ensures
        pairs_encoding(a + b) == pairs_encoding(a) + pairs_encoding(b),
        pairs_encoding(Seq::<(Vec<u8>, Vec<u8>)>::empty()) == Seq::<u8>::empty(),
        forall|p: (Vec<u8>, Vec<u8>)|
            #[trigger] pairs_encoding(seq![p]) == encoded_bytes(p.0@) + encoded_bytes(p.1@),
        pair_list_encoding(a) == compact_len(a.len()) + pairs_encoding(a),
    decreases b.len(),
{
    assert forall|p: (Vec<u8>, Vec<u8>)| #[trigger]
        pairs_encoding(seq![p]) == encoded_bytes(p.0@) + encoded_bytes(p.1@) by {
        assert(seq![p].drop_last() =~= Seq::<(Vec<u8>, Vec<u8>)>::empty());
        assert(seq![p].last() == p);
        assert(pairs_encoding(Seq::<(Vec<u8>, Vec<u8>)>::empty()) =~= Seq::<u8>::empty());
        assert(pairs_encoding(seq![p]) =~= encoded_bytes(p.0@) + encoded_bytes(p.1@));
    }
    if b.len() == 0 {
        assert(a + b =~= a);
        assert(pairs_encoding(a) + pairs_encoding(b) =~= pairs_encoding(a));
    } else {
        lemma_pairs_encoding_in_order(a, b.drop_last());
        assert((a + b).drop_last() =~= a + b.drop_last());
        assert((a + b).last() == b.last());
        assert(pairs_encoding(a + b) =~= pairs_encoding(a) + pairs_encoding(b));
    }
}

/// The bytes an issuer signs hold the certificate's fields in order:
/// `expires` in eight bytes and `version` in four, least significant first,
/// the holder's key byte for byte, then the tag 0 or 1 of `not_before` and
/// its eight bytes where it is set, then the permissions' encoding, and
/// last the issuer's key byte for byte.
pub proof fn lemma_certificate_encoding_layout(c: Certificate)
    ensures
        ({
            let m = certificate_encoding(c);
            let start = if c.not_before is Some {
                53int
            } else {
                45int
            };
            &&& m.len() == start + pair_list_encoding(c.permissions@).len() + 32
            &&& le_value(m.subrange(0, 8)) == c.expires
            &&& le_value(m.subrange(8, 12)) == c.version
            &&& m.subrange(12, 44) == c.holder@
            &&& m[44] == (if c.not_before is Some {
                1u8
            } else {
                0u8
            })
            &&& (c.not_before matches Some(v) ==> le_value(m.subrange(45, 53)) == v)
            &&& m.subrange(start, m.len() - 32) == pair_list_encoding(c.permissions@)
            &&& m.subrange(m.len() - 32, m.len() as int) == c.issuer@
        }),
{
    assert(byte_range(4) == 0x1_0000_0000 && byte_range(8) == 0x1_0000_0000_0000_0000) by {
        reveal_with_fuel(byte_range, 9);
    }
    lemma_le_bytes_read_back(c.expires as nat, 8);
    lemma_le_bytes_read_back(c.version as nat, 4);
    let m = certificate_encoding(c);
    let e = le_bytes(c.expires as nat, 8);
    let v = le_bytes(c.version as nat, 4);
    assert(m.subrange(0, 8) =~= e);
    assert(m.subrange(8, 12) =~= v);
    assert(m.subrange(12, 44) =~= c.holder@);
    match c.not_before {
        Some(nb) => {
            lemma_le_bytes_read_back(nb as nat, 8);
            assert(m.subrange(45, 53) =~= le_bytes(nb as nat, 8));
        },
        None => {},
    }
    let start = if c.not_before is Some {
        53int
    } else {
        45int
    };
    assert(m.subrange(start, m.len() - 32) =~= pair_list_encoding(c.permissions@));
    assert(m.subrange(m.len() - 32, m.len() as int) =~= c.issuer@);
}

/// A certificate grants the cennznet permission exactly where one of its
/// permissions, at any position, has as domain the bytes 32 (the compact
/// length 8) followed by `cennznet`.
pub proof fn lemma_grants_cennznet_iff(c: Certificate)
    ensures
        grants_cennznet(c) <==> exists|i: int|
            0 <= i < c.permissions.len() && #[trigger] c.permissions[i].0@ == seq![
                32u8,
                99u8,
                101u8,
                110u8,
                110u8,
                122u8,
                110u8,
                101u8,
                116u8,
            ],
{
    lemma_cennznet_domain();
}

/// A doughnut is within its validity exactly where it has not expired and
/// its start (if any) has come. It is accepted exactly where it is within
/// its validity and its signature verifies; it is refused as badly signed
/// exactly where it is within its validity and the signature does not
/// verify.
pub proof fn lemma_validate_behaviour(d: Doughnut, now: u64, verified: bool)
    ensures
        within_validity(d.certificate, now) <==> (now < d.certificate.expires && (
        d.certificate.not_before matches Some(nb) ==> nb <= now)),
        validate_result(d, now, verified) == Ok::<(), DoughnutError>(()) <==> (now
            < d.certificate.expires && (d.certificate.not_before matches Some(nb) ==> nb <= now)
            && verified),
        validate_result(d, now, verified) == Err::<(), DoughnutError>(
            DoughnutError::InvalidSignature,
        ) <==> (now < d.certificate.expires && (d.certificate.not_before matches Some(nb) ==> nb
            <= now) && !verified),
{
}

} // verus!
