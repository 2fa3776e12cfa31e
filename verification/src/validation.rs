//! Range and consistency checks for settings written by admin commands.
//! The command layer hands these functions already-parsed values; settings
//! that reach the resolver have passed them.

use vstd::prelude::*;
use vstd::string::StrSliceExecFns;

use crate::constants::{
    MAX_NAME_LENGTH, MAX_NEWER_THAN, MAX_OLDER_THAN, MAX_PREM_VOTE_EMOJIS, MAX_REQUIRED,
    MAX_REQUIRED_REMOVE, MAX_VOTE_EMOJIS, MIN_NAME_LENGTH, MIN_REQUIRED, MIN_REQUIRED_REMOVE,
};

verus! {

/// Whether a post threshold is acceptable next to the current de-list
/// threshold: in range, and strictly above it.
pub open spec fn required_ok(val: i64, required_remove: i16) -> bool {
    MIN_REQUIRED <= val <= MAX_REQUIRED && val > required_remove as i64
}

/// Validate a post threshold against the effective de-list threshold.
pub fn validate_required(val: i64, required_remove: i16) -> (r: Result<i16, ()>)
    ensures
        r is Ok <==> required_ok(val, required_remove),
        r is Ok ==> r->Ok_0 as i64 == val,
{
    if val >= MIN_REQUIRED && val <= MAX_REQUIRED && val > required_remove as i64 {
        Ok(val as i16)
    } else {
        Err(())
    }
}

/// Whether a de-list threshold is acceptable next to the current post
/// threshold: in range, and strictly below it.
pub open spec fn required_remove_ok(val: i64, required: i16) -> bool {
    MIN_REQUIRED_REMOVE <= val <= MAX_REQUIRED_REMOVE && val < required as i64
}

/// Validate a de-list threshold against the effective post threshold.
pub fn validate_required_remove(val: i64, required: i16) -> (r: Result<i16, ()>)
    ensures
        r is Ok <==> required_remove_ok(val, required),
        r is Ok ==> r->Ok_0 as i64 == val,
{
    if val >= MIN_REQUIRED_REMOVE && val <= MAX_REQUIRED_REMOVE && val < required as i64 {
        Ok(val as i16)
    } else {
        Err(())
    }
}

/// Whether an age window is acceptable: both bounds non-negative and
/// within a week, and not contradictory — a message cannot be required to
/// be both older than a large bound and newer than a smaller one.
pub open spec fn relative_duration_ok(newer_than: i64, older_than: i64) -> bool {
    &&& 0 <= newer_than <= MAX_NEWER_THAN
    &&& 0 <= older_than <= MAX_OLDER_THAN
    &&& !(newer_than > 0 && older_than > 0 && older_than >= newer_than)
}

/// Validate the age window; zero disables a bound.
pub fn validate_relative_duration(newer_than: i64, older_than: i64) -> (r: Result<(), ()>)
    ensures
        r is Ok <==> relative_duration_ok(newer_than, older_than),
{
    if newer_than >= 0 && newer_than <= MAX_NEWER_THAN && older_than >= 0 && older_than
        <= MAX_OLDER_THAN && !(newer_than > 0 && older_than > 0 && older_than >= newer_than) {
        Ok(())
    } else {
        Err(())
    }
}

/// Whether a list holds a string with this text.
pub open spec fn holds_string(v: Seq<String>, s: Seq<char>) -> bool {
    exists|j: int| 0 <= j < v.len() && (#[trigger] v[j])@ == s
}

/// Whether some emoji appears in both lists (compared by text).
pub open spec fn emoji_overlap(up: Seq<String>, down: Seq<String>) -> bool {
    exists|i: int| 0 <= i < up.len() && holds_string(down, (#[trigger] up[i])@)
}

fn vec_contains_string(v: &Vec<String>, s: &String) -> (r: bool)
    ensures
        r == holds_string(v@, s@),
{
    let mut i: usize = 0;
    while i < v.len()
        invariant
            i <= v.len(),
            forall|j: int| 0 <= j < i ==> (#[trigger] v@[j])@ != s@,
        decreases v.len() - i,
    {
        if v[i] == *s {
            proof {
                assert((#[trigger] v@[i as int])@ == s@);
            }
            return true;
        }
        i += 1;
    }
    false
}

/// Whether a pair of vote emoji lists is acceptable: no emoji may both
/// upvote and downvote, and the combined count stays within the guild's
/// limit — larger for premium guilds.
pub open spec fn vote_emojis_ok(up: Seq<String>, down: Seq<String>, premium: bool) -> bool {
    &&& !emoji_overlap(up, down)
    &&& up.len() + down.len() <= (if premium {
        MAX_PREM_VOTE_EMOJIS as int
    } else {
        MAX_VOTE_EMOJIS as int
    })
}

/// Validate a pair of vote emoji lists.
pub fn validate_vote_emojis(up: &Vec<String>, down: &Vec<String>, premium: bool) -> (r: Result<
    (),
    (),
>)
    ensures
        r is Ok <==> vote_emojis_ok(up@, down@, premium),
{
    let limit: usize = if premium {
        MAX_PREM_VOTE_EMOJIS
    } else {
        MAX_VOTE_EMOJIS
    };
    if up.len() > limit || down.len() > limit || up.len() + down.len() > limit {
        return Err(());
    }
    let mut i: usize = 0;
    while i < up.len()
        invariant
            i <= up@.len(),
            forall|j: int| 0 <= j < i ==> !holds_string(down@, (#[trigger] up@[j])@),
        decreases up@.len() - i,
    {
        if vec_contains_string(down, &up[i]) {
            return Err(());
        }
        i += 1;
    }
    Ok(())
}

/// Whether a name's length is acceptable.
pub open spec fn name_len_ok(name: Seq<char>) -> bool {
    MIN_NAME_LENGTH <= name.len() <= MAX_NAME_LENGTH
}

/// Validate the length of a starboard, override or filter-group name.
pub fn validate_name(name: &str) -> (r: Result<(), ()>)
    ensures
        r is Ok <==> name_len_ok(name@),
{
    let n = name.unicode_len();
    if n >= MIN_NAME_LENGTH && n <= MAX_NAME_LENGTH {
        Ok(())
    } else {
        Err(())
    }
}

/// Whether a content pattern may be set: patterns are a premium feature.
/// Pattern syntax itself is checked where the pattern engine lives.
pub open spec fn pattern_ok(premium: bool) -> bool {
    premium
}

/// Validate that a guild may set a content pattern.
pub fn validate_pattern(premium: bool) -> (r: Result<(), ()>)
    ensures
        r is Ok <==> pattern_ok(premium),
{
    if premium {
        Ok(())
    } else {
        Err(())
    }
}

} // verus!
