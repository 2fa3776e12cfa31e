//! Premium expiry: the atomic clear-and-list pass, auto-redemption, and
//! the new premium gate.

use starboard_core::premium::{
    auto_redeem, process_expired_guild, GuildPremium, GuildTable, MemberCredit,
};

fn guild(id: i64, end: Option<i64>) -> GuildPremium {
    GuildPremium { guild_id: id, premium_end: end, premium_gate: end.is_some() }
}

#[test]
fn expire_pass_clears_each_lapsed_guild_exactly_once() {
    let mut table = GuildTable::new();
    table.upsert(guild(1, Some(50)));  // lapsed
    table.upsert(guild(2, Some(500)));  // still running
    table.upsert(guild(3, None));  // never premium
    table.upsert(guild(4, Some(10)));  // lapsed
    let expired = table.expire_pass(100);
    assert_eq!(expired, vec![1, 4]);
    // the grants are cleared
    assert_eq!(table.get(1).unwrap().premium_end, None);
    assert_eq!(table.get(4).unwrap().premium_end, None);
    assert_eq!(table.get(2).unwrap().premium_end, Some(500));
    // a second pass finds them no more: cleared exactly once
    let again = table.expire_pass(100);
    assert!(again.is_empty());
}

#[test]
fn expire_pass_uses_strict_comparison() {
    let mut table = GuildTable::new();
    table.upsert(guild(1, Some(100)));
    // an end exactly at "now" has not lapsed yet
    assert!(table.expire_pass(100).is_empty());
    assert_eq!(table.expire_pass(101), vec![1]);
}

#[test]
fn auto_redeem_charges_the_first_eligible_member() {
    let mut members = vec![
        MemberCredit { user_id: 1, credits: 0, autoredeem_enabled: true },
        MemberCredit { user_id: 2, credits: 3, autoredeem_enabled: false },
        MemberCredit { user_id: 3, credits: 2, autoredeem_enabled: true },
        MemberCredit { user_id: 4, credits: 5, autoredeem_enabled: true },
    ];
    let charged = auto_redeem(&mut members);
    // the first member has no credit, the second opted out: the third pays
    assert_eq!(charged, Some(3));
    assert_eq!(members[2].credits, 1);
    // nobody after the first success is touched
    assert_eq!(members[3].credits, 5);
}

#[test]
fn premium_gate_follows_redemption() {
    // no redemption succeeds: premium lapses
    let mut nobody = vec![
        MemberCredit { user_id: 1, credits: 0, autoredeem_enabled: true },
        MemberCredit { user_id: 2, credits: 9, autoredeem_enabled: false },
    ];
    let before = nobody.clone();
    assert!(!process_expired_guild(&mut nobody));
    // a failed redemption touches nobody's credits
    assert_eq!(nobody, before);
    // one does: premium continues
    let mut someone = vec![MemberCredit { user_id: 3, credits: 1, autoredeem_enabled: true }];
    assert!(process_expired_guild(&mut someone));
    assert_eq!(someone[0].credits, 0);
}

#[test]
fn upsert_replaces_a_guild_row() {
    let mut table = GuildTable::new();
    table.upsert(guild(1, Some(50)));
    table.upsert(GuildPremium { guild_id: 1, premium_end: Some(900), premium_gate: true });
    assert_eq!(table.get(1).unwrap().premium_end, Some(900));
    assert!(table.get(2).is_none());
}
