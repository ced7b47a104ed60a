//! The activity catalog: the fixed vocabulary of activity codes and the names
//! they are reported under.

use crate::decimal::{decimal_text, push_decimal};
use vstd::prelude::*;
use vstd::string::*;

verus! {

/// Every known activity code with its name. A closed table: codes that are
/// not listed get a synthesized name, see [`get_activity_name`].
pub const ACTIVITY_TYPES: [(i32, &'static str); 92] = [
    (0, "peer_added_by_user"),
    (1, "peer_added_with_setup_key"),
    (2, "user_joined"),
    (3, "user_invited"),
    (4, "account_created"),
    (5, "peer_removed_by_user"),
    (6, "rule_added"),
    (7, "rule_updated"),
    (8, "rule_removed"),
    (9, "policy_added"),
    (10, "policy_updated"),
    (11, "policy_removed"),
    (12, "setup_key_created"),
    (13, "setup_key_updated"),
    (14, "setup_key_revoked"),
    (15, "setup_key_overused"),
    (16, "group_created"),
    (17, "group_updated"),
    (18, "group_added_to_peer"),
    (19, "group_removed_from_peer"),
    (20, "group_added_to_user"),
    (21, "group_removed_from_user"),
    (22, "user_role_updated"),
    (23, "group_added_to_setup_key"),
    (24, "group_removed_from_setup_key"),
    (25, "group_added_to_disabled_management_groups"),
    (26, "group_removed_from_disabled_management_groups"),
    (27, "route_created"),
    (28, "route_removed"),
    (29, "route_updated"),
    (30, "peer_ssh_enabled"),
    (31, "peer_ssh_disabled"),
    (32, "peer_renamed"),
    (33, "peer_login_expiration_enabled"),
    (34, "peer_login_expiration_disabled"),
    (35, "nameserver_group_created"),
    (36, "nameserver_group_deleted"),
    (37, "nameserver_group_updated"),
    (38, "account_peer_login_expiration_enabled"),
    (39, "account_peer_login_expiration_disabled"),
    (40, "account_peer_login_expiration_duration_updated"),
    (41, "personal_access_token_created"),
    (42, "personal_access_token_deleted"),
    (43, "service_user_created"),
    (44, "service_user_deleted"),
    (45, "user_blocked"),
    (46, "user_unblocked"),
    (47, "user_deleted"),
    (48, "group_deleted"),
    (49, "user_logged_in_peer"),
    (50, "peer_login_expired"),
    (51, "dashboard_login"),
    (52, "integration_created"),
    (53, "integration_updated"),
    (54, "integration_deleted"),
    (55, "account_peer_approval_enabled"),
    (56, "account_peer_approval_disabled"),
    (57, "peer_approved"),
    (58, "peer_approval_revoked"),
    (59, "transferred_owner_role"),
    (60, "posture_check_created"),
    (61, "posture_check_updated"),
    (62, "posture_check_deleted"),
    (63, "peer_inactivity_expiration_enabled"),
    (64, "peer_inactivity_expiration_disabled"),
    (65, "account_peer_inactivity_expiration_enabled"),
    (66, "account_peer_inactivity_expiration_disabled"),
    (67, "account_peer_inactivity_expiration_duration_updated"),
    (68, "setup_key_deleted"),
    (69, "user_group_propagation_enabled"),
    (70, "user_group_propagation_disabled"),
    (71, "account_routing_peer_dns_resolution_enabled"),
    (72, "account_routing_peer_dns_resolution_disabled"),
    (73, "network_created"),
    (74, "network_updated"),
    (75, "network_deleted"),
    (76, "network_resource_created"),
    (77, "network_resource_updated"),
    (78, "network_resource_deleted"),
    (79, "network_router_created"),
    (80, "network_router_updated"),
    (81, "network_router_deleted"),
    (82, "resource_added_to_group"),
    (83, "resource_removed_from_group"),
    (84, "account_dns_domain_updated"),
    (85, "account_lazy_connection_enabled"),
    (86, "account_lazy_connection_disabled"),
    (87, "account_network_range_updated"),
    (88, "peer_ip_updated"),
    (89, "user_approved"),
    (90, "user_rejected"),
    (99999, "account_deleted"),
];

/// Whether entry `i` of the table is the first one listed for `code`.
pub open spec fn is_entry_for(code: i32, i: int) -> bool {
    &&& 0 <= i < ACTIVITY_TYPES.len()
    &&& ACTIVITY_TYPES[i].0 == code
    &&& forall|j: int| 0 <= j < i ==> (#[trigger] ACTIVITY_TYPES[j]).0 != code
}

/// Whether the table lists `code`.
pub open spec fn is_known_activity(code: i32) -> bool {
    exists|i: int| is_entry_for(code, i)
}

/// The name the table gives to `code`, if it lists the code.
pub open spec fn known_activity_name(code: i32) -> Option<Seq<char>> {
    if is_known_activity(code) {
        Some(ACTIVITY_TYPES[choose|i: int| is_entry_for(code, i)].1@)
    } else {
        None
    }
}

/// The name an activity code is reported under: the table's name for a listed
/// code, and `unknown_` followed by the code in decimal for any other.
pub open spec fn activity_name(code: i32) -> Seq<char> {
    match known_activity_name(code) {
        Some(name) => name,
        None => "unknown_"@ + decimal_text(code as int),
    }
}

/// A code has at most one first entry.
pub proof fn lemma_entry_unique(code: i32, i: int, j: int)
    requires
        is_entry_for(code, i),
        is_entry_for(code, j),
    ensures
        i == j,
{
    if i < j {
        assert(ACTIVITY_TYPES[i].0 != code);
    } else if j < i {
        assert(ACTIVITY_TYPES[j].0 != code);
    }
}

/// Looks `code` up in the table by exact match.
pub fn lookup_activity(code: i32) -> (r: Option<&'static str>)
    ensures
        r is Some == is_known_activity(code),
        r matches Some(name) ==> known_activity_name(code) == Some(name@),
        r is None ==> known_activity_name(code) is None,
{
    let mut i: usize = 0;
    while i < ACTIVITY_TYPES.len()
        invariant
            i <= ACTIVITY_TYPES.len(),
            forall|j: int| 0 <= j < i ==> (#[trigger] ACTIVITY_TYPES[j]).0 != code,
        decreases ACTIVITY_TYPES.len() - i,
    {
        if ACTIVITY_TYPES[i].0 == code {
            proof {
                assert(is_entry_for(code, i as int));
                let chosen = choose|k: int| is_entry_for(code, k);
                lemma_entry_unique(code, i as int, chosen);
            }
            return Some(ACTIVITY_TYPES[i].1);
        }
        i += 1;
    }
    assert forall|k: int| !is_entry_for(code, k) by {
        if 0 <= k < ACTIVITY_TYPES.len() {
            assert(ACTIVITY_TYPES[k].0 != code);
        }
    }
    None
}

/// The name an activity code is reported under. Never fails: a code outside
/// the table is reported as `unknown_<code>`.
pub fn get_activity_name(code: i32) -> (name: String)
    ensures
        name@ == activity_name(code),
{
    match lookup_activity(code) {
        Some(known) => String::from_str(known),
        None => {
            let mut name = String::from_str("unknown_");
            push_decimal(&mut name, code as i64);
            name
        },
    }
}

} // verus!
