use pos_core::amount::Amount;
use pos_core::ids::{CheckID, MenuItemID, Money, OrderID, OrderItemID, TableID, VenueID};
use pos_core::{
    apply_core_event_to_kds, can_close_check, kitchen_tickets, table_is_available, totals,
    AggregateRef, Check, CheckLine, CommandEnvelope, CoreCommand, CoreEvent, EventEnvelope,
    KdsState, OrderCommand, OrderEvent, RoutingTable, Table, SCHEMA_VERSION,
};

#[test]
fn public_api_roundtrip() {
    let venue_id = VenueID::new();
    let order_id = OrderID::new();
    let check_id = CheckID::new();
    let table_id = TableID::new();
    let order_item_id = OrderItemID::new();
    let menu_item_id = MenuItemID::new();

    let order_cmd = OrderCommand::AddItem {
        venue_id,
        order_id,
        order_item_id,
        menu_item_id,
        name: "Latte".to_string(),
        unit_price: Money::gbp(Amount::new(450, 2)),
        qty: 1,
        notes: None,
    };

    let env = CommandEnvelope::new(CoreCommand::Order(order_cmd));
    assert_eq!(env.schema_version, SCHEMA_VERSION);
    assert!(matches!(env.command, CoreCommand::Order(_)));

    let mut check = Check::new(venue_id, check_id, order_id);
    check.lines.push(CheckLine {
        order_item_id,
        qty: 1,
        unit_price: Money::gbp(Amount::new(450, 2)),
        name: "Latte".to_string(),
    });

    let totals = totals(&check);
    assert_eq!(totals.total.amount, Amount::new(450, 2));
    assert!(!can_close_check(&check));

    let table = Table::new(venue_id, table_id, "A1", None);
    assert!(table_is_available(&table));

    let mut state = KdsState::new();
    let routing = RoutingTable::default();
    let order_event = OrderEvent::ItemAdded {
        venue_id,
        order_id,
        order_item_id,
        menu_item_id,
        name: "Latte".to_string(),
        unit_price: Money::gbp(Amount::new(450, 2)),
        qty: 1,
        notes: None,
    };

    let mut event_env =
        EventEnvelope::new(AggregateRef::order(order_id), CoreEvent::Order(order_event));
    event_env.seq = Some(1);

    apply_core_event_to_kds(&mut state, &event_env, &routing, None).unwrap();

    let tickets = kitchen_tickets(&state, None);
    assert_eq!(tickets.len(), 1);
}
