//! Which station cooks which item: rules tried in order, then a default.

use vstd::prelude::*;
use vstd::utf8::encode_utf8;

use crate::ids::MenuItemID;
use crate::orders::clone_opt_string;
use super::model::StationId;

verus! {

/// Sends an item to `station` when its menu item is `menu_item_id`, or when
/// its name starts with `name_prefix`.
#[derive(Debug)]
pub struct RoutingRule {
    pub station: StationId,
    pub menu_item_id: Option<MenuItemID>,
    pub name_prefix: Option<String>,
}

impl Clone for RoutingRule {
    fn clone(&self) -> (r: Self)
        ensures
            r == *self,
    {
        RoutingRule {
            station: self.station.clone(),
            menu_item_id: self.menu_item_id,
            name_prefix: clone_opt_string(&self.name_prefix),
        }
    }
}

impl RoutingRule {
    pub fn for_menu_item(menu_item_id: MenuItemID, station: &str) -> (r: Self)
        ensures
            r.station@ == station@,
            r.menu_item_id == Some(menu_item_id),
            r.name_prefix is None,
    {
        RoutingRule { station: station.to_owned(), menu_item_id: Some(menu_item_id), name_prefix: None }
    }

    pub fn for_name_prefix(prefix: &str, station: &str) -> (r: Self)
        ensures
            r.station@ == station@,
            r.menu_item_id is None,
            r.name_prefix matches Some(p) && p@ == prefix@,
    {
        RoutingRule {
            station: station.to_owned(),
            menu_item_id: None,
            name_prefix: Some(prefix.to_owned()),
        }
    }
}

/// The rules, tried in order, and the station for items that no rule takes.
#[derive(Debug)]
pub struct RoutingTable {
    pub rules: Vec<RoutingRule>,
    pub default_station: StationId,
}

impl RoutingTable {
    pub fn new(rules: Vec<RoutingRule>, default_station: &str) -> (r: Self)
        ensures
            r.rules@ == rules@,
            r.default_station@ == default_station@,
    {
        RoutingTable { rules, default_station: default_station.to_owned() }
    }
}

impl Default for RoutingTable {
    /// No rule; everything goes to "kitchen".
    fn default() -> (r: Self)
        ensures
            r.rules@.len() == 0,
            r.default_station@ == "kitchen"@,
    {
        let r = RoutingTable { rules: Vec::new(), default_station: "kitchen".to_owned() };
        r
    }
}

/// `name` starts with `prefix`, comparing their UTF-8 bytes.
pub open spec fn name_starts_with(name: Seq<char>, prefix: Seq<char>) -> bool {
    encode_utf8(prefix).is_prefix_of(encode_utf8(name))
}

/// The rule takes the item: same menu item, or a name with the rule's prefix.
pub open spec fn rule_matches(rule: RoutingRule, menu_item_id: MenuItemID, name: Seq<char>) -> bool {
    ||| rule.menu_item_id == Some(menu_item_id)
    ||| match rule.name_prefix {
        Some(p) => name_starts_with(name, p@),
        None => false,
    }
}

/// The station of the first rule from position `i` on that takes the item, or
/// the default station when none does.
pub open spec fn routed_station_from(
    rules: Seq<RoutingRule>,
    default_station: String,
    menu_item_id: MenuItemID,
    name: Seq<char>,
    i: int,
) -> String
    decreases rules.len() - i,
{
    if i >= rules.len() {
        default_station
    } else if rule_matches(rules[i], menu_item_id, name) {
        rules[i].station
    } else {
        routed_station_from(rules, default_station, menu_item_id, name, i + 1)
    }
}

/// The station that the table sends the item to.
pub open spec fn routed_station(routing: RoutingTable, menu_item_id: MenuItemID, name: Seq<char>) -> String {
    routed_station_from(routing.rules@, routing.default_station, menu_item_id, name, 0)
}

fn bytes_start_with(data: &[u8], prefix: &[u8]) -> (r: bool)
    ensures
        r == prefix@.is_prefix_of(data@),
{
    if prefix.len() > data.len() {
        return false;
    }
    let mut i: usize = 0;
    while i < prefix.len()
        invariant
            i <= prefix.len() <= data.len(),
            forall|j: int| 0 <= j < i ==> prefix@[j] == data@[j],
        decreases prefix.len() - i,
    {
        if prefix[i] != data[i] {
            assert(prefix@[i as int] != data@.subrange(0, prefix@.len() as int)[i as int]);
            return false;
        }
        i += 1;
    }
    assert(prefix@ =~= data@.subrange(0, prefix@.len() as int));
    true
}

/// Whether `name` starts with `prefix`.
pub fn str_starts_with(name: &str, prefix: &str) -> (r: bool)
    ensures
        r == name_starts_with(name@, prefix@),
{
    bytes_start_with(name.as_bytes(), prefix.as_bytes())
}

/// The station that cooks an item: that of the first rule whose menu item is
/// the item's, or whose name prefix begins the item's name; else the default.
pub fn station_for_item(menu_item_id: MenuItemID, name: &str, routing_table: &RoutingTable) -> (r:
    StationId)
    ensures
        r == routed_station(*routing_table, menu_item_id, name@),
{
    let rules = &routing_table.rules;
    let mut i: usize = 0;
    while i < rules.len()
        invariant
            i <= rules.len(),
            routed_station(*routing_table, menu_item_id, name@) == routed_station_from(
                rules@,
                routing_table.default_station,
                menu_item_id,
                name@,
                i as int,
            ),
            rules == &routing_table.rules,
        decreases rules.len() - i,
    {
        let rule = &rules[i];
        if let Some(rule_menu_item_id) = rule.menu_item_id {
            if rule_menu_item_id == menu_item_id {
                return rule.station.clone();
            }
        }
        if let Some(prefix) = &rule.name_prefix {
            if str_starts_with(name, prefix.as_str()) {
                return rule.station.clone();
            }
        }
        i += 1;
    }
    routing_table.default_station.clone()
}

} // verus!
