//! Effective starboard settings and the sparse override patches that
//! customize them.
//!
//! A starboard carries a base settings record. An override carries the same
//! fields, each optional: an absent field means "inherit", a present field
//! replaces the base value. Merging is a pure, field-wise substitution;
//! no validation happens here (settings are validated when written).

use vstd::prelude::*;

use crate::util::{clone_opt_string, clone_string_vec};

verus! {

/// How many vote emojis a non-premium guild may use.
pub const MAX_VOTE_EMOJIS: usize = 3;

/// Fully-merged effective settings for one (channel, starboard) pair.
pub struct ResolvedSettings {
    /// Whether the starboard acts at all.
    pub enabled: bool,
    /// Vote count at which a message is posted (or kept).
    pub required: i16,
    /// Strictly lower vote count at which a posted message is removed.
    pub required_remove: i16,
    /// Emojis that count as upvotes.
    pub upvote_emojis: Vec<String>,
    /// Emojis that count as downvotes.
    pub downvote_emojis: Vec<String>,
    /// Auto-react to a fresh post with the upvote emojis.
    pub autoreact_upvote: bool,
    /// Auto-react to a fresh post with the downvote emojis.
    pub autoreact_downvote: bool,
    /// Whether authors may vote on their own messages.
    pub self_vote: bool,
    /// Whether bot-authored messages qualify.
    pub allow_bots: bool,
    /// Whether a message must carry an image to qualify.
    pub require_image: bool,
    /// Minimum age in seconds before a message may be posted; zero disables.
    pub older_than: i64,
    /// Maximum age in seconds for a message to be posted; zero disables.
    pub newer_than: i64,
    /// Premium: pattern the content must match, when set.
    pub matches: Option<String>,
    /// Premium: pattern the content must not match, when set.
    pub not_matches: Option<String>,
}

/// Spec-level value of [`ResolvedSettings`].
#[verifier::ext_equal]
pub struct SettingsModel {
    pub enabled: bool,
    pub required: i16,
    pub required_remove: i16,
    pub upvote_emojis: Seq<String>,
    pub downvote_emojis: Seq<String>,
    pub autoreact_upvote: bool,
    pub autoreact_downvote: bool,
    pub self_vote: bool,
    pub allow_bots: bool,
    pub require_image: bool,
    pub older_than: i64,
    pub newer_than: i64,
    pub matches: Option<String>,
    pub not_matches: Option<String>,
}

impl View for ResolvedSettings {
    type V = SettingsModel;

    open spec fn view(&self) -> SettingsModel {
        SettingsModel {
            enabled: self.enabled,
            required: self.required,
            required_remove: self.required_remove,
            upvote_emojis: self.upvote_emojis@,
            downvote_emojis: self.downvote_emojis@,
            autoreact_upvote: self.autoreact_upvote,
            autoreact_downvote: self.autoreact_downvote,
            self_vote: self.self_vote,
            allow_bots: self.allow_bots,
            require_image: self.require_image,
            older_than: self.older_than,
            newer_than: self.newer_than,
            matches: self.matches,
            not_matches: self.not_matches,
        }
    }
}

/// A sparse settings patch: each field is optional, absence means inherit.
pub struct OverrideValues {
    pub enabled: Option<bool>,
    pub required: Option<i16>,
    pub required_remove: Option<i16>,
    pub upvote_emojis: Option<Vec<String>>,
    pub downvote_emojis: Option<Vec<String>>,
    pub autoreact_upvote: Option<bool>,
    pub autoreact_downvote: Option<bool>,
    pub self_vote: Option<bool>,
    pub allow_bots: Option<bool>,
    pub require_image: Option<bool>,
    pub older_than: Option<i64>,
    pub newer_than: Option<i64>,
    pub matches: Option<String>,
    pub not_matches: Option<String>,
}

/// Spec-level value of [`OverrideValues`].
#[verifier::ext_equal]
pub struct OverrideValuesModel {
    pub enabled: Option<bool>,
    pub required: Option<i16>,
    pub required_remove: Option<i16>,
    pub upvote_emojis: Option<Seq<String>>,
    pub downvote_emojis: Option<Seq<String>>,
    pub autoreact_upvote: Option<bool>,
    pub autoreact_downvote: Option<bool>,
    pub self_vote: Option<bool>,
    pub allow_bots: Option<bool>,
    pub require_image: Option<bool>,
    pub older_than: Option<i64>,
    pub newer_than: Option<i64>,
    pub matches: Option<String>,
    pub not_matches: Option<String>,
}

impl View for OverrideValues {
    type V = OverrideValuesModel;

    open spec fn view(&self) -> OverrideValuesModel {
        OverrideValuesModel {
            enabled: self.enabled,
            required: self.required,
            required_remove: self.required_remove,
            upvote_emojis: match self.upvote_emojis {
                Some(v) => Some(v@),
                None => None,
            },
            downvote_emojis: match self.downvote_emojis {
                Some(v) => Some(v@),
                None => None,
            },
            autoreact_upvote: self.autoreact_upvote,
            autoreact_downvote: self.autoreact_downvote,
            self_vote: self.self_vote,
            allow_bots: self.allow_bots,
            require_image: self.require_image,
            older_than: self.older_than,
            newer_than: self.newer_than,
            matches: self.matches,
            not_matches: self.not_matches,
        }
    }
}

impl OverrideValues {
    /// A patch that overrides nothing.
    pub fn empty() -> (r: OverrideValues)
        ensures
            r@ == empty_patch(),
    {
        let r = OverrideValues {
            enabled: None,
            required: None,
            required_remove: None,
            upvote_emojis: None,
            downvote_emojis: None,
            autoreact_upvote: None,
            autoreact_downvote: None,
            self_vote: None,
            allow_bots: None,
            require_image: None,
            older_than: None,
            newer_than: None,
            matches: None,
            not_matches: None,
        };
        proof {
            assert(r@ =~= empty_patch());
        }
        r
    }
}

/// The patch that overrides nothing.
pub open spec fn empty_patch() -> OverrideValuesModel {
    OverrideValuesModel {
        enabled: None,
        required: None,
        required_remove: None,
        upvote_emojis: None,
        downvote_emojis: None,
        autoreact_upvote: None,
        autoreact_downvote: None,
        self_vote: None,
        allow_bots: None,
        require_image: None,
        older_than: None,
        newer_than: None,
        matches: None,
        not_matches: None,
    }
}

/// Field-wise substitution: a present patch field replaces the base value,
/// an absent one inherits it.
pub open spec fn merge_model(b: SettingsModel, p: OverrideValuesModel) -> SettingsModel {
    SettingsModel {
        enabled: if p.enabled is Some {
            p.enabled->0
        } else {
            b.enabled
        },
        required: if p.required is Some {
            p.required->0
        } else {
            b.required
        },
        required_remove: if p.required_remove is Some {
            p.required_remove->0
        } else {
            b.required_remove
        },
        upvote_emojis: if p.upvote_emojis is Some {
            p.upvote_emojis->0
        } else {
            b.upvote_emojis
        },
        downvote_emojis: if p.downvote_emojis is Some {
            p.downvote_emojis->0
        } else {
            b.downvote_emojis
        },
        autoreact_upvote: if p.autoreact_upvote is Some {
            p.autoreact_upvote->0
        } else {
            b.autoreact_upvote
        },
        autoreact_downvote: if p.autoreact_downvote is Some {
            p.autoreact_downvote->0
        } else {
            b.autoreact_downvote
        },
        self_vote: if p.self_vote is Some {
            p.self_vote->0
        } else {
            b.self_vote
        },
        allow_bots: if p.allow_bots is Some {
            p.allow_bots->0
        } else {
            b.allow_bots
        },
        require_image: if p.require_image is Some {
            p.require_image->0
        } else {
            b.require_image
        },
        older_than: if p.older_than is Some {
            p.older_than->0
        } else {
            b.older_than
        },
        newer_than: if p.newer_than is Some {
            p.newer_than->0
        } else {
            b.newer_than
        },
        matches: if p.matches is Some {
            p.matches
        } else {
            b.matches
        },
        not_matches: if p.not_matches is Some {
            p.not_matches
        } else {
            b.not_matches
        },
    }
}

/// Apply one patch to a base settings record.
pub fn merge(b: &ResolvedSettings, p: &OverrideValues) -> (r: ResolvedSettings)
    ensures
        r@ == merge_model(b@, p@),
{
    let r = ResolvedSettings {
        enabled: match p.enabled {
            Some(v) => v,
            None => b.enabled,
        },
        required: match p.required {
            Some(v) => v,
            None => b.required,
        },
        required_remove: match p.required_remove {
            Some(v) => v,
            None => b.required_remove,
        },
        upvote_emojis: match &p.upvote_emojis {
            Some(v) => clone_string_vec(v),
            None => clone_string_vec(&b.upvote_emojis),
        },
        downvote_emojis: match &p.downvote_emojis {
            Some(v) => clone_string_vec(v),
            None => clone_string_vec(&b.downvote_emojis),
        },
        autoreact_upvote: match p.autoreact_upvote {
            Some(v) => v,
            None => b.autoreact_upvote,
        },
        autoreact_downvote: match p.autoreact_downvote {
            Some(v) => v,
            None => b.autoreact_downvote,
        },
        self_vote: match p.self_vote {
            Some(v) => v,
            None => b.self_vote,
        },
        allow_bots: match p.allow_bots {
            Some(v) => v,
            None => b.allow_bots,
        },
        require_image: match p.require_image {
            Some(v) => v,
            None => b.require_image,
        },
        older_than: match p.older_than {
            Some(v) => v,
            None => b.older_than,
        },
        newer_than: match p.newer_than {
            Some(v) => v,
            None => b.newer_than,
        },
        matches: match &p.matches {
            Some(v) => Some(v.clone()),
            None => clone_opt_string(&b.matches),
        },
        not_matches: match &p.not_matches {
            Some(v) => Some(v.clone()),
            None => clone_opt_string(&b.not_matches),
        },
    };
    proof {
        assert(r@ =~= merge_model(b@, p@));
    }
    r
}

/// Apply a list of patches left to right.
pub open spec fn fold_merge_model(b: SettingsModel, ps: Seq<OverrideValuesModel>) -> SettingsModel
    decreases ps.len(),
{
    if ps.len() == 0 {
        b
    } else {
        fold_merge_model(merge_model(b, ps[0]), ps.subrange(1, ps.len() as int))
    }
}

/// The premium gate: when the guild is not premium, premium-only fields are
/// forcibly disabled — content patterns are cleared and the emoji sets are
/// cut down to the free limit — regardless of what base or overrides said.
pub open spec fn premium_gate_model(s: SettingsModel, premium: bool) -> SettingsModel {
    if premium {
        s
    } else {
        SettingsModel {
            matches: None,
            not_matches: None,
            upvote_emojis: s.upvote_emojis.take(min_len(s.upvote_emojis.len() as int, MAX_VOTE_EMOJIS as int)),
            downvote_emojis: s.downvote_emojis.take(min_len(s.downvote_emojis.len() as int, MAX_VOTE_EMOJIS as int)),
            ..s
        }
    }
}

/// The smaller of two lengths.
pub open spec fn min_len(a: int, b: int) -> int {
    if a < b {
        a
    } else {
        b
    }
}

/// Apply the premium gate to a merged settings record.
pub fn apply_premium_gate(s: ResolvedSettings, premium: bool) -> (r: ResolvedSettings)
    ensures
        r@ == premium_gate_model(s@, premium),
{
    if premium {
        s
    } else {
        let ghost orig = s@;
        let mut t = s;
        t.matches = None;
        t.not_matches = None;
        t.upvote_emojis.truncate(MAX_VOTE_EMOJIS);
        t.downvote_emojis.truncate(MAX_VOTE_EMOJIS);
        proof {
            assert(t@ =~= premium_gate_model(orig, false));
        }
        t
    }
}

} // verus!
