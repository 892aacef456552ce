use xpay::xpay_diner::{insert_into_diner, purchase_for_diner, remove_from_diner};
use xpay::xpay_profile::{remove_profile, save_profile};
use xpay::storage::XPay;
use xpay::types::{ensure_signed, Item, Origin, Profile, XPayError, XPayEvent};
use xpay::xpay::Payment;

fn bytes(s: &str) -> Vec<u8> {
    s.as_bytes().to_vec()
}

fn store_with_item(owner: u64, asset: u32, amount: u128) -> XPay {
    let mut s = XPay::new();
    s.create_item(Origin::Signed(owner), bytes("tea"), asset, amount, bytes("img"), bytes("ipfs"))
        .unwrap();
    s
}

#[test]
fn ensure_signed_accepts_only_signed_origins() {
    assert_eq!(ensure_signed(Origin::Signed(7)), Ok(7));
    assert_eq!(ensure_signed(Origin::Root), Err(XPayError::BadOrigin));
    assert_eq!(ensure_signed(Origin::Unsigned), Err(XPayError::BadOrigin));
}

#[test]
fn error_messages() {
    assert_eq!(XPayError::BadOrigin.message(), "bad origin");
    assert_eq!(XPayError::NoNewItemId.message(), "No new item id is available.");
    assert_eq!(XPayError::DinerDoesNotExist.message(), "Diner does not exist");
    assert_eq!(XPayError::ItemNotInDiner.message(), "Item does not exist in Diner");
    assert_eq!(XPayError::NoUnpaidItemToRemove.message(), "There is no unpaid item to remove");
    assert_eq!(XPayError::NoUnpaidItemToPay.message(), "There is no unpaid item to pay for");
    assert_eq!(XPayError::PaymentFailed("Insufficient balance").message(), "Insufficient balance");
}

#[test]
fn create_item_assigns_consecutive_ids() {
    let mut s = XPay::new();
    assert_eq!(s.next_item_id(), 0);
    s.create_item(Origin::Signed(1), bytes("a"), 3, 10, bytes("i"), bytes("p")).unwrap();
    s.create_item(Origin::Signed(2), bytes("b"), 4, 20, bytes("j"), bytes("q")).unwrap();
    s.create_item(Origin::Signed(1), bytes("c"), 5, 30, bytes("k"), bytes("r")).unwrap();
    assert_eq!(s.next_item_id(), 3);
    assert_eq!(s.owner_itemids(1), vec![0, 2]);
    assert_eq!(s.owner_itemids(2), vec![1]);
    assert_eq!(s.owner_itemids(9), Vec::<u64>::new());
    assert_eq!(s.item_price(1), Some((4, 20)));
    assert_eq!(
        s.item(2),
        Some(&Item { desc: bytes("c"), image: bytes("k"), ipfs: bytes("r") })
    );
    assert_eq!(s.item(3), None);
    assert_eq!(
        s.events().clone(),
        vec![
            XPayEvent::ItemCreated(1, 0, (3, 10)),
            XPayEvent::ItemCreated(2, 1, (4, 20)),
            XPayEvent::ItemCreated(1, 2, (5, 30)),
        ]
    );
}

#[test]
fn create_item_refuses_unsigned_origin() {
    let mut s = XPay::new();
    assert_eq!(
        s.create_item(Origin::Root, bytes("a"), 0, 1, bytes(""), bytes("")),
        Err(XPayError::BadOrigin)
    );
    assert_eq!(s.next_item_id(), 0);
    assert_eq!(s.item(0), None);
    assert!(s.events().is_empty());
}

#[test]
fn update_item_replaces_item_and_price() {
    let mut s = store_with_item(1, 0, 10);
    assert_eq!(
        s.update_item(Origin::Signed(5), 0, bytes("coffee"), 2, 99, bytes("x"), bytes("y")),
        Ok(())
    );
    assert_eq!(
        s.item(0),
        Some(&Item { desc: bytes("coffee"), image: bytes("x"), ipfs: bytes("y") })
    );
    assert_eq!(s.item_price(0), Some((2, 99)));
    assert_eq!(s.events().last(), Some(&XPayEvent::ItemUpdated(5, 0, (2, 99))));
    assert_eq!(s.next_item_id(), 1);
}

#[test]
fn update_item_refuses_missing_item() {
    let mut s = store_with_item(1, 0, 10);
    assert_eq!(
        s.update_item(Origin::Signed(1), 4, bytes("x"), 0, 1, bytes(""), bytes("")),
        Err(XPayError::ItemDidNotExist)
    );
    assert_eq!(s.item(4), None);
    assert_eq!(s.item_price(0), Some((0, 10)));
    assert_eq!(s.events().len(), 1);
}

#[test]
fn insert_into_diner_starts_a_bill() {
    let mut s = XPay::new();
    assert_eq!(insert_into_diner(&mut s, 4, 9), Ok(()));
    assert_eq!(s.diner_items(9), vec![(4, 0, 1)]);
    assert_eq!(insert_into_diner(&mut s, 4, 9), Ok(()));
    assert_eq!(s.diner_items(9), vec![(4, 0, 2)]);
}

#[test]
fn insert_into_diner_adds_new_item_to_existing_bill() {
    let mut s = XPay::new();
    insert_into_diner(&mut s, 5, 1).unwrap();
    assert_eq!(s.diner_items(1), vec![(5, 0, 1)]);
    assert_eq!(insert_into_diner(&mut s, 6, 1), Ok(()));
    assert_eq!(s.diner_items(1), vec![(5, 0, 1), (6, 0, 1)]);
    assert_eq!(insert_into_diner(&mut s, 6, 1), Ok(()));
    assert_eq!(s.diner_items(1), vec![(5, 0, 1), (6, 0, 2)]);
}

#[test]
fn order_then_take_back_new_item_leaves_empty_line() {
    let mut s = XPay::new();
    insert_into_diner(&mut s, 5, 1).unwrap();
    insert_into_diner(&mut s, 6, 1).unwrap();
    assert_eq!(remove_from_diner(&mut s, 6, 1), Ok(()));
    assert_eq!(s.diner_items(1), vec![(5, 0, 1), (6, 0, 0)]);
}

#[test]
fn insert_into_diner_wraps_unpaid_count() {
    let mut s = XPay::new();
    for _ in 0..256 {
        insert_into_diner(&mut s, 4, 9).unwrap();
    }
    assert_eq!(s.diner_items(9), vec![(4, 0, 0)]);
}

#[test]
fn remove_from_diner_errors() {
    let mut s = XPay::new();
    assert_eq!(remove_from_diner(&mut s, 4, 9), Err(XPayError::DinerDoesNotExist));
    assert_eq!(s.diner_items(9), Vec::<(u64, u8, u8)>::new());
    insert_into_diner(&mut s, 4, 9).unwrap();
    assert_eq!(remove_from_diner(&mut s, 5, 9), Err(XPayError::ItemNotInDiner));
    assert_eq!(s.diner_items(9), vec![(4, 0, 1)]);
    assert_eq!(purchase_for_diner(&mut s, 5, 9), Err(XPayError::ItemNotInDiner));
    assert_eq!(remove_from_diner(&mut s, 4, 9), Ok(()));
    assert_eq!(s.diner_items(9), vec![(4, 0, 0)]);
    assert_eq!(remove_from_diner(&mut s, 4, 9), Err(XPayError::NoUnpaidItemToRemove));
    assert_eq!(s.diner_items(9), vec![(4, 0, 255)]);
}

#[test]
fn purchase_for_diner_moves_unpaid_to_paid() {
    let mut s = XPay::new();
    insert_into_diner(&mut s, 4, 9).unwrap();
    insert_into_diner(&mut s, 4, 9).unwrap();
    assert_eq!(purchase_for_diner(&mut s, 4, 9), Ok(()));
    assert_eq!(s.diner_items(9), vec![(4, 1, 1)]);
    assert_eq!(purchase_for_diner(&mut s, 4, 9), Ok(()));
    assert_eq!(s.diner_items(9), vec![(4, 2, 0)]);
    assert_eq!(purchase_for_diner(&mut s, 4, 9), Err(XPayError::NoUnpaidItemToPay));
    assert_eq!(s.diner_items(9), vec![(4, 3, 255)]);
    assert_eq!(purchase_for_diner(&mut s, 5, 9), Err(XPayError::ItemNotInDiner));
    assert_eq!(purchase_for_diner(&mut s, 4, 8), Err(XPayError::DinerDoesNotExist));
}

#[test]
fn take_back_undoes_order() {
    let mut s = XPay::new();
    insert_into_diner(&mut s, 4, 9).unwrap();
    purchase_for_diner(&mut s, 4, 9).unwrap();
    let before = s.diner_items(9);
    insert_into_diner(&mut s, 4, 9).unwrap();
    assert_eq!(remove_from_diner(&mut s, 4, 9), Ok(()));
    assert_eq!(s.diner_items(9), before);
}

#[test]
fn payment_keeps_line_total() {
    let mut s = XPay::new();
    for _ in 0..3 {
        insert_into_diner(&mut s, 4, 9).unwrap();
    }
    let (_, p0, u0) = s.diner_items(9)[0];
    purchase_for_diner(&mut s, 4, 9).unwrap();
    let (_, p1, u1) = s.diner_items(9)[0];
    assert_eq!(p0 + u0, p1 + u1);
    assert_eq!((p1, u1), (1, 2));
}

#[test]
fn add_and_remove_item_deposit_events() {
    let mut s = store_with_item(1, 0, 10);
    assert_eq!(s.add_item(Origin::Signed(3), 0, 9, 2), Ok(()));
    assert_eq!(s.events().last(), Some(&XPayEvent::ItemAdded(3, 0, 9)));
    assert_eq!(s.remove_item(Origin::Signed(3), 0, 9, 2), Ok(()));
    assert_eq!(s.events().last(), Some(&XPayEvent::ItemRemoved(3, 0, 9)));
    assert_eq!(s.remove_item(Origin::Signed(3), 0, 9, 2), Err(XPayError::NoUnpaidItemToRemove));
    assert_eq!(s.events().len(), 3);
    assert_eq!(s.add_item(Origin::Unsigned, 0, 9, 2), Err(XPayError::BadOrigin));
    assert_eq!(s.remove_item(Origin::Root, 0, 9, 2), Err(XPayError::BadOrigin));
}

#[test]
fn purchase_in_price_asset_transfers_total() {
    let mut s = store_with_item(1, 0, 10);
    s.add_item(Origin::Signed(2), 0, 9, 1).unwrap();
    let ticket = s.purchase_item(Origin::Signed(2), 1, 0, 9, 0, 30, 3).unwrap();
    assert_eq!(ticket.payment(), Payment::Transfer { asset_id: 0, from: 2, to: 1, amount: 30 });
    assert_eq!((ticket.buyer(), ticket.item_id(), ticket.quantity()), (2, 0, 3));
    assert_eq!(s.diner_items(9), vec![(0, 1, 0)]);
    assert_eq!(s.settle_purchase(ticket, Ok(())), Ok(()));
    assert_eq!(s.events().last(), Some(&XPayEvent::ItemSold(2, 0, 3)));
}

#[test]
fn purchase_in_other_asset_asks_for_swap() {
    let mut s = store_with_item(1, 0, 10);
    let ticket = s.purchase_item(Origin::Signed(2), 1, 0, 9, 7, 5, 3).unwrap();
    assert_eq!(
        ticket.payment(),
        Payment::Swap {
            buyer: 2,
            recipient: 1,
            asset_sold: 7,
            asset_bought: 0,
            buy_amount: 30,
            max_paying_amount: 5,
        }
    );
    assert_eq!(s.settle_purchase(ticket, Err("Insufficient balance")), Err(XPayError::PaymentFailed("Insufficient balance")));
    assert_eq!(s.events().len(), 1);
    assert_eq!(s.diner_items(9), Vec::<(u64, u8, u8)>::new());
}

#[test]
fn purchase_refusals() {
    let mut s = store_with_item(1, 0, 10);
    assert_eq!(s.purchase_item(Origin::Root, 1, 0, 9, 0, 30, 3).err(), Some(XPayError::BadOrigin));
    assert_eq!(s.purchase_item(Origin::Signed(2), 1, 5, 9, 0, 30, 3).err(), Some(XPayError::NoItemPrice));
    assert_eq!(
        s.purchase_item(Origin::Signed(2), 3, 0, 9, 0, 30, 3).err(),
        Some(XPayError::SellerHasNoSuchItem)
    );
    assert_eq!(
        s.purchase_item(Origin::Signed(2), 1, 0, 9, 0, 29, 3).err(),
        Some(XPayError::PayingPriceTooLow)
    );
    assert_eq!(
        s.purchase_item(Origin::Signed(2), 1, 0, 9, 0, 30, 3).err(),
        Some(XPayError::DinerDoesNotExist)
    );
    let mut big = store_with_item(1, 0, u128::MAX / 2);
    assert_eq!(
        big.purchase_item(Origin::Signed(2), 1, 0, 9, 0, u128::MAX, 3).err(),
        Some(XPayError::TotalPriceOverflow)
    );
    assert_eq!(s.events().len(), 1);
}

#[test]
fn profile_save_read_remove() {
    let mut s = XPay::new();
    assert_eq!(save_profile(&mut s, 4, bytes("ann"), bytes("i"), bytes("p")), Ok(()));
    let p = Profile { profile_name: bytes("ann"), image: bytes("i"), ipfs: bytes("p") };
    assert_eq!(s.profile(4), Some(&p));
    assert_eq!(s.profile(5), None);
    assert_eq!(save_profile(&mut s, 4, bytes("ann"), bytes("i"), bytes("p")), Ok(()));
    assert_eq!(s.profile(4), Some(&p));
    assert_eq!(remove_profile(&mut s, 4), Ok(()));
    assert_eq!(s.profile(4), None);
    assert_eq!(remove_profile(&mut s, 4), Ok(()));
}

#[test]
fn profile_calls_check_permission() {
    let mut s = XPay::new();
    assert_eq!(
        s.save_profile(Origin::Signed(1), 2, bytes("x"), bytes(""), bytes("")),
        Err(XPayError::NoPermissionToSaveProfile)
    );
    assert_eq!(s.profile(2), None);
    assert_eq!(
        s.save_profile(Origin::Unsigned, 2, bytes("x"), bytes(""), bytes("")),
        Err(XPayError::BadOrigin)
    );
    assert_eq!(s.save_profile(Origin::Signed(2), 2, bytes("x"), bytes(""), bytes("")), Ok(()));
    assert_eq!(s.remove_profile(Origin::Signed(1), 2), Err(XPayError::NoPermissionToRemoveProfile));
    assert!(s.profile(2).is_some());
    assert_eq!(s.remove_profile(Origin::Signed(2), 2), Ok(()));
    assert_eq!(s.profile(2), None);
}

#[test]
fn payment_moves_one_unit_across_bills() {
    let mut s = XPay::new();
    insert_into_diner(&mut s, 4, 1).unwrap();
    insert_into_diner(&mut s, 4, 1).unwrap();
    insert_into_diner(&mut s, 5, 1).unwrap();
    insert_into_diner(&mut s, 4, 2).unwrap();
    let totals = |s: &XPay| {
        let mut paid = 0u32;
        let mut unpaid = 0u32;
        for d in [1u32, 2] {
            for (_, p, u) in s.diner_items(d) {
                paid += p as u32;
                unpaid += u as u32;
            }
        }
        (paid, unpaid)
    };
    assert_eq!(totals(&s), (0, 4));
    purchase_for_diner(&mut s, 4, 1).unwrap();
    assert_eq!(totals(&s), (1, 3));
    assert_eq!(s.diner_items(1), vec![(4, 1, 1), (5, 0, 1)]);
    assert_eq!(s.diner_items(2), vec![(4, 0, 1)]);
}
