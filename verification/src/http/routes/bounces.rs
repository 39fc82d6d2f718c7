//! Bounce rules.

use vstd::prelude::*;
use vstd::string::*;

use crate::db::bounce_rules;
use crate::db::bounce_rules::BounceRule;

verus! {

/// The rule that a request stores: that of the body, for the mailbox of the path.
pub fn upsert(mailbox_id: String, rule: BounceRule) -> (r: BounceRule)
    ensures
        r@ == (bounce_rules::RuleModel { mailbox_id: mailbox_id@, ..rule@ }),
{
    let mut rule = rule;
    rule.mailbox_id = mailbox_id;
    rule
}

} // verus!
