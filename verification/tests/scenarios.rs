//! End-to-end workflow scenarios: each operation loads the context from a
//! store, applies the verified workflow step, and persists the result, as the
//! service layer does.

use sled::Batch;
use trade_approval::codec::{decode_trade_context, encode_trade_context};
use trade_approval::context::{TradeContext, TradeState};
use trade_approval::service;
use trade_approval::trade::{Currency, Direction, TimeStamp, TradeDetails};
use trade_approval::utils::new_uuid_to_bech32;

fn open_store() -> sled::Db {
    sled::Config::new().temporary(true).open().unwrap()
}

fn persist_submit(db: &sled::Db, ctx: &TradeContext, details_hash: &str, details_cbor: Vec<u8>) {
    let mut batch = Batch::default();
    batch.insert(details_hash.as_bytes(), details_cbor);
    batch.insert(ctx.trade_id.as_bytes(), encode_trade_context(ctx));
    db.apply_batch(batch).unwrap();
}

fn save(db: &sled::Db, ctx: &TradeContext) {
    db.insert(ctx.trade_id.as_bytes(), encode_trade_context(ctx))
        .unwrap();
}

fn load(db: &sled::Db, trade_id: &str) -> TradeContext {
    let bytes = db.get(trade_id.as_bytes()).unwrap().unwrap().to_vec();
    decode_trade_context(&bytes).unwrap()
}

fn sample_details(trade_entity: &str, counter_party: &str, timestamp: TimeStamp) -> TradeDetails {
    TradeDetails::new()
        .new_trade_entity(trade_entity)
        .new_counter_party(counter_party)
        .set_notional_currency(Currency::USD)
        .set_direction(Direction::Buy)
        .set_notional_amount(20_000)
        .set_underlying_amount(15_000)
        .set_underlying_currency(Currency::GBP)
        .set_trade_date(timestamp.clone())
        .set_delivery_date(timestamp.clone())
        .set_value_date(timestamp)
}

#[test]
fn submit_and_approve_trade() {
    let db = open_store();
    db.clear().unwrap();

    let requester_id = new_uuid_to_bech32("user_").unwrap();
    let approver_id = new_uuid_to_bech32("user_").unwrap();
    let user_id = new_uuid_to_bech32("user_").unwrap();
    let trade_entity = new_uuid_to_bech32("user_").unwrap();
    let counter_party = new_uuid_to_bech32("user_").unwrap();
    let timestamp = TimeStamp::new();

    let trade_details = sample_details(trade_entity.as_ref(), counter_party.as_ref(), timestamp);

    let (ctx, details_hash, details_cbor) =
        service::submit_trade(&trade_details, requester_id, approver_id.clone(), user_id).unwrap();
    persist_submit(&db, &ctx, &details_hash, details_cbor);

    assert_eq!(ctx.current_state(), TradeState::PendingApproval);

    // With our trade submitted we can move onto the next step, approval.
    let loaded = load(&db, &ctx.trade_id);
    let ctx = service::approve_trade(loaded, approver_id).unwrap();
    save(&db, &ctx);

    assert_eq!(ctx.current_state(), TradeState::Approved);
}

#[test]
fn update_trade() {
    let db = open_store();
    db.clear().unwrap();

    let requester_id = new_uuid_to_bech32("user_").unwrap();
    let approver_id = new_uuid_to_bech32("user_").unwrap();
    let user_id = new_uuid_to_bech32("user_").unwrap();
    let trade_entity = new_uuid_to_bech32("user_").unwrap();
    let counter_party = new_uuid_to_bech32("user_").unwrap();
    let timestamp = TimeStamp::new();

    let trade_details =
        sample_details(trade_entity.as_ref(), counter_party.as_ref(), timestamp.clone());

    let (ctx, details_hash, details_cbor) = service::submit_trade(
        &trade_details,
        requester_id,
        approver_id.clone(),
        user_id.clone(),
    )
    .unwrap();
    persist_submit(&db, &ctx, &details_hash, details_cbor);

    assert_eq!(ctx.current_state(), TradeState::PendingApproval);

    let loaded = load(&db, &ctx.trade_id);
    let ctx = service::approve_trade(loaded, approver_id).unwrap();
    save(&db, &ctx);

    assert_eq!(ctx.current_state(), TradeState::Approved);

    let trade_details_update = TradeDetails::new()
        .new_trade_entity(trade_entity.as_ref())
        .new_counter_party(counter_party.as_ref())
        .set_notional_currency(Currency::USD)
        .set_direction(Direction::Sell) // changed
        .set_notional_amount(10_000) // changed
        .set_underlying_amount(5_000) // changed
        .set_underlying_currency(Currency::GBP)
        .set_trade_date(timestamp.clone())
        .set_delivery_date(timestamp.clone())
        .set_value_date(timestamp);

    let loaded = load(&db, &ctx.trade_id);
    let (ctx, details_hash, details_cbor) =
        service::update_trade(loaded, &trade_details_update, user_id).unwrap();
    persist_submit(&db, &ctx, &details_hash, details_cbor);

    assert_eq!(ctx.current_state(), TradeState::PendingApproval);
}

#[test]
fn submit_execute_and_book() {
    let db = open_store();
    db.clear().unwrap();

    let requester_id = new_uuid_to_bech32("user_").unwrap();
    let approver_id = new_uuid_to_bech32("user_").unwrap();
    let user_id = new_uuid_to_bech32("user_").unwrap();
    let trade_entity = new_uuid_to_bech32("user_").unwrap();
    let counter_party = new_uuid_to_bech32("user_").unwrap();
    let timestamp = TimeStamp::new();

    let trade_details = sample_details(trade_entity.as_ref(), counter_party.as_ref(), timestamp);

    let (ctx, details_hash, details_cbor) = service::submit_trade(
        &trade_details,
        requester_id,
        approver_id.clone(),
        user_id.clone(),
    )
    .unwrap();
    persist_submit(&db, &ctx, &details_hash, details_cbor);

    assert_eq!(ctx.current_state(), TradeState::PendingApproval);

    // With our trade submitted we can move onto the next step, approval.
    let loaded = load(&db, &ctx.trade_id);
    let ctx = service::approve_trade(loaded, approver_id).unwrap();
    save(&db, &ctx);

    assert_eq!(ctx.current_state(), TradeState::Approved);

    let loaded = load(&db, &ctx.trade_id);
    let ctx = service::execute_trade(loaded, user_id.clone()).unwrap();
    save(&db, &ctx);

    assert_eq!(ctx.current_state(), TradeState::SentToExecute);

    let loaded = load(&db, &ctx.trade_id);
    let ctx = service::book_trade(loaded, user_id, 1_000_040);
    save(&db, &ctx);

    assert_eq!(ctx.current_state(), TradeState::Booked);
}

#[test]
fn view_history() {
    let db = open_store();
    db.clear().unwrap();

    let requester_id = new_uuid_to_bech32("user_").unwrap();
    let approver_id = new_uuid_to_bech32("user_").unwrap();
    let user_id = new_uuid_to_bech32("user_").unwrap();
    let trade_entity = new_uuid_to_bech32("user_").unwrap();
    let counter_party = new_uuid_to_bech32("user_").unwrap();
    let timestamp = TimeStamp::new();

    let trade_details =
        sample_details(trade_entity.as_ref(), counter_party.as_ref(), timestamp.clone());

    let (ctx, details_hash, details_cbor) = service::submit_trade(
        &trade_details,
        requester_id,
        approver_id.clone(),
        user_id.clone(),
    )
    .unwrap();
    persist_submit(&db, &ctx, &details_hash, details_cbor);

    let loaded = load(&db, &ctx.trade_id);
    let ctx = service::approve_trade(loaded, approver_id.clone()).unwrap();
    save(&db, &ctx);

    let trade_details = TradeDetails::new()
        .new_trade_entity(trade_entity.as_ref())
        .new_counter_party(counter_party.as_ref())
        .set_notional_currency(Currency::USD)
        .set_direction(Direction::Buy)
        .set_notional_amount(25_000)
        .set_underlying_amount(15_000)
        .set_underlying_currency(Currency::GBP)
        .set_trade_date(timestamp.clone())
        .set_delivery_date(timestamp.clone())
        .set_value_date(timestamp);

    let loaded = load(&db, &ctx.trade_id);
    let (ctx, details_hash, details_cbor) =
        service::update_trade(loaded, &trade_details, user_id.clone()).unwrap();
    persist_submit(&db, &ctx, &details_hash, details_cbor);

    let loaded = load(&db, &ctx.trade_id);
    let ctx = service::approve_trade(loaded, approver_id).unwrap();
    save(&db, &ctx);

    let loaded = load(&db, &ctx.trade_id);
    let ctx = service::execute_trade(loaded, user_id.clone()).unwrap();
    save(&db, &ctx);

    let loaded = load(&db, &ctx.trade_id);
    let ctx = service::book_trade(loaded, user_id, 25_000);
    save(&db, &ctx);

    assert!(!ctx.witness_set.is_empty());
}
