//! Configuration resolution: merging a starboard's base settings with the
//! overrides that apply to a channel, then gating premium-only features.
//!
//! Overrides are applied in ascending id order; the premium gate runs last
//! and wins over whatever base or overrides specified.

use vstd::multiset::Multiset;
use vstd::prelude::*;
use vstd::relations::sorted_by;

use crate::settings::{
    apply_premium_gate, fold_merge_model, merge, merge_model, premium_gate_model, ResolvedSettings,
    OverrideValues, OverrideValuesModel, SettingsModel,
};
use crate::starboard_override::StarboardOverride;

verus! {

/// A starboard's stored base configuration.
pub struct Starboard {
    /// Surrogate id; unique across all starboards.
    pub id: i32,
    /// Unique per guild.
    pub name: String,
    pub guild_id: i64,
    /// The channel that receives mirrored posts.
    pub channel_id: i64,
    /// Set while the guild's premium has lapsed and this starboard is over
    /// the free limit; a locked starboard takes no part in refreshes.
    pub premium_locked: bool,
    /// The base settings, before overrides.
    pub settings: ResolvedSettings,
}

/// Fully-merged effective settings for one (message channel, starboard)
/// pair. Derived, never stored.
pub struct ResolvedConfig {
    pub starboard_id: i32,
    /// The starboard's target channel.
    pub starboard_channel_id: i64,
    pub premium_locked: bool,
    pub resolved: ResolvedSettings,
}

/// Whether an override applies to a message posted in `channel_id` whose
/// parent category is `category_id`: its channel list must name either one.
pub open spec fn applies_to(o: StarboardOverride, channel_id: i64, category_id: Option<i64>) -> bool {
    o.channel_ids@.contains(channel_id) || (category_id is Some && o.channel_ids@.contains(
        category_id->0,
    ))
}

/// [`applies_to`] as a predicate over overrides, for a fixed channel.
pub open spec fn applies_pred(channel_id: i64, category_id: Option<i64>) -> spec_fn(
    StarboardOverride,
) -> bool {
    |o: StarboardOverride| applies_to(o, channel_id, category_id)
}

/// Ascending override id.
pub open spec fn override_id_leq() -> spec_fn(StarboardOverride, StarboardOverride) -> bool {
    |a: StarboardOverride, b: StarboardOverride| a.id <= b.id
}

/// The override patches of a sequence of overrides, in order.
pub open spec fn patch_models(s: Seq<StarboardOverride>) -> Seq<OverrideValuesModel> {
    s.map_values(|o: StarboardOverride| o.overrides@)
}

fn contains_channel(ids: &Vec<i64>, channel: i64) -> (r: bool)
    ensures
        r == ids@.contains(channel),
{
    let mut i: usize = 0;
    while i < ids.len()
        invariant
            i <= ids.len(),
            forall|j: int| 0 <= j < i ==> ids@[j] != channel,
        decreases ids.len() - i,
    {
        if ids[i] == channel {
            return true;
        }
        i += 1;
    }
    false
}

fn override_applies(o: &StarboardOverride, channel_id: i64, category_id: Option<i64>) -> (r: bool)
    ensures
        r == applies_to(*o, channel_id, category_id),
{
    if contains_channel(&o.channel_ids, channel_id) {
        true
    } else {
        match category_id {
            Some(c) => contains_channel(&o.channel_ids, c),
            None => false,
        }
    }
}

/// Keep exactly the overrides that apply to the channel, in input order.
fn select_applicable(v: Vec<StarboardOverride>, channel_id: i64, category_id: Option<i64>) -> (r:
    Vec<StarboardOverride>)
    ensures
        r@ == v@.filter(applies_pred(channel_id, category_id)),
{
    let mut rest = v;
    let mut r: Vec<StarboardOverride> = Vec::new();
    let ghost orig = rest@;
    while rest.len() > 0
        invariant
            orig =~= orig.subrange(0, orig.len() - rest@.len()) + rest@,
            rest@.len() <= orig.len(),
            r@ =~= orig.subrange(0, orig.len() - rest@.len()).filter(applies_pred(channel_id, category_id)),
        decreases rest@.len(),
    {
        let ghost prefix = orig.subrange(0, orig.len() - rest@.len());
        let o = rest.remove(0);
        proof {
            reveal_with_fuel(Seq::filter, 2);
            let pred = applies_pred(channel_id, category_id);
            assert(prefix.push(o) =~= orig.subrange(0, orig.len() - rest@.len()));
            assert(prefix.push(o).drop_last() =~= prefix);
            assert(prefix.push(o).last() == o);
            assert(prefix.push(o).filter(pred) == if pred(o) {
                prefix.filter(pred).push(o)
            } else {
                prefix.filter(pred)
            });
        }
        if override_applies(&o, channel_id, category_id) {
            proof {
                assert(applies_pred(channel_id, category_id)(o) == applies_to(
                    o,
                    channel_id,
                    category_id,
                ));
            }
            r.push(o);
        } else {
            proof {
                assert(applies_pred(channel_id, category_id)(o) == applies_to(
                    o,
                    channel_id,
                    category_id,
                ));
            }
        }
    }
    proof {
        assert(orig.subrange(0, orig.len() as int) =~= orig);
    }
    r
}

/// Sort overrides by ascending id; ties keep no particular order.
fn sort_overrides_by_id(v: Vec<StarboardOverride>) -> (r: Vec<StarboardOverride>)
    ensures
        sorted_by(r@, override_id_leq()),
        r@.to_multiset() == v@.to_multiset(),
{
    let mut rest = v;
    let mut r: Vec<StarboardOverride> = Vec::new();
    proof {
        broadcast use vstd::multiset::group_multiset_axioms;

        r@.to_multiset_ensures();
        vstd::multiset::lemma_multiset_empty_len(r@.to_multiset());
        assert(r@.to_multiset().add(rest@.to_multiset()) =~= v@.to_multiset());
    }
    while rest.len() > 0
        invariant
            sorted_by(r@, override_id_leq()),
            r@.to_multiset().add(rest@.to_multiset()) =~= v@.to_multiset(),
        decreases rest@.len(),
    {
        let ghost old_rest = rest@;
        let ghost old_r = r@;
        let o = rest.pop().unwrap();
        let mut p: usize = 0;
        while p < r.len() && r[p].id <= o.id
            invariant
                p <= r.len(),
                forall|j: int| 0 <= j < p ==> #[trigger] r@[j].id <= o.id,
            decreases r.len() - p,
        {
            p += 1;
        }
        let ghost pos = p as int;
        r.insert(p, o);
        proof {
            old_r.insert_ensures(pos, o);
            assert forall|i: int, j: int| 0 <= i < j < r@.len() implies #[trigger] override_id_leq()(
                r@[i],
                r@[j],
            ) by {
                if j < pos {
                    assert(override_id_leq()(old_r[i], old_r[j]));
                } else if i > pos {
                    assert(override_id_leq()(old_r[i - 1], old_r[j - 1]));
                } else if i < pos && j == pos {
                    assert(r@[i] == old_r[i]);
                } else if i == pos && j > pos {
                    // the scan stopped where old_r[pos].id > o.id; everything
                    // at or after that point is larger in the sorted prefix
                    if pos < old_r.len() {
                        assert(override_id_leq()(old_r[pos], old_r[j - 1]) || pos == j - 1);
                    }
                } else if i < pos && j > pos {
                    assert(override_id_leq()(old_r[i], old_r[j - 1]));
                }
            }
            assert(old_rest =~= rest@.push(o));
            rest@.to_multiset_ensures();
            assert(rest@.push(o).to_multiset() =~= rest@.to_multiset().insert(o));
            assert(r@ == old_r.insert(pos, o));
            vstd::seq_lib::to_multiset_insert(old_r, pos, o);
            assert(old_r.to_multiset().insert(o).add(rest@.to_multiset()) =~= old_r.to_multiset()
                .add(rest@.to_multiset().insert(o)));
        }
    }
    proof {
        broadcast use vstd::multiset::group_multiset_axioms;

        rest@.to_multiset_ensures();
        vstd::multiset::lemma_multiset_empty_len(rest@.to_multiset());
        assert(rest@.to_multiset() =~= Multiset::empty());
        assert(r@.to_multiset() =~= v@.to_multiset());
    }
    r
}

/// Make a standalone copy of a settings record.
fn copy_settings(s: &ResolvedSettings) -> (r: ResolvedSettings)
    ensures
        r@ == s@,
{
    let empty = OverrideValues::empty();
    let r = merge(s, &empty);
    proof {
        assert(merge_model(s@, crate::settings::empty_patch()) =~= s@);
    }
    r
}

/// Resolve the effective settings of one starboard for a message channel:
/// start from the base settings, apply every override whose channel list
/// names the channel or its parent category in ascending id order, then
/// apply the premium gate. Pure substitution; nothing is validated here.
///
/// The order among overrides with equal ids is unspecified; ids are unique
/// in practice, which pins the result completely.
pub fn resolve(
    sb: &Starboard,
    overrides: Vec<StarboardOverride>,
    channel_id: i64,
    category_id: Option<i64>,
    premium: bool,
) -> (r: ResolvedConfig)
    ensures
        r.starboard_id == sb.id,
        r.starboard_channel_id == sb.channel_id,
        r.premium_locked == sb.premium_locked,
        exists|sel: Seq<StarboardOverride>|
            {
                &&& #[trigger] sorted_by(sel, override_id_leq())
                &&& sel.to_multiset() == overrides@.filter(
                    |o: StarboardOverride| applies_to(o, channel_id, category_id),
                ).to_multiset()
                &&& r.resolved@ == premium_gate_model(
                    fold_merge_model(sb.settings@, patch_models(sel)),
                    premium,
                )
            },
{
    let ghost all = overrides@;
    let sel = sort_overrides_by_id(select_applicable(overrides, channel_id, category_id));
    let ghost sel_seq = sel@;
    let mut acc = copy_settings(&sb.settings);
    proof {
        assert(sel_seq.subrange(0, sel_seq.len() as int) =~= sel_seq);
    }
    let mut i: usize = 0;
    while i < sel.len()
        invariant
            i <= sel.len(),
            sel@ == sel_seq,
            fold_merge_model(sb.settings@, patch_models(sel_seq)) == fold_merge_model(
                acc@,
                patch_models(sel_seq.subrange(i as int, sel_seq.len() as int)),
            ),
        decreases sel.len() - i,
    {
        let ghost tail = patch_models(sel_seq.subrange(i as int, sel_seq.len() as int));
        let ghost acc_pre = acc@;
        proof {
            assert(tail[0] == sel_seq[i as int].overrides@);
            assert(tail.subrange(1, tail.len() as int) =~= patch_models(
                sel_seq.subrange(i + 1 as int, sel_seq.len() as int),
            ));
            assert(fold_merge_model(acc_pre, tail) == fold_merge_model(
                merge_model(acc_pre, tail[0]),
                tail.subrange(1, tail.len() as int),
            ));
        }
        acc = merge(&acc, &sel[i].overrides);
        i += 1;
    }
    proof {
        assert(patch_models(sel_seq.subrange(sel_seq.len() as int, sel_seq.len() as int))
            =~= Seq::<OverrideValuesModel>::empty());
    }
    let resolved = apply_premium_gate(acc, premium);
    let r = ResolvedConfig {
        starboard_id: sb.id,
        starboard_channel_id: sb.channel_id,
        premium_locked: sb.premium_locked,
        resolved,
    };
    proof {
        let sel_witness = sel_seq;
        assert(sorted_by(sel_witness, override_id_leq()));
        assert(r.resolved@ == premium_gate_model(
            fold_merge_model(sb.settings@, patch_models(sel_witness)),
            premium,
        ));
    }
    r
}

/// Elements of a filtered sequence come from the sequence that was filtered.
proof fn lemma_filter_subset(s: Seq<StarboardOverride>, pred: spec_fn(StarboardOverride) -> bool, x: StarboardOverride)
    requires
        s.filter(pred).contains(x),
    ensures
        s.contains(x),
    decreases s.len(),
{
    reveal_with_fuel(Seq::filter, 2);
    if s.len() > 0 {
        if s.drop_last().filter(pred).contains(x) {
            lemma_filter_subset(s.drop_last(), pred, x);
            let j = choose|j: int| 0 <= j < s.drop_last().len() && s.drop_last()[j] == x;
            assert(s[j] == x);
        } else {
            assert(x == s.last());
            assert(s[s.len() - 1] == x);
        }
    }
}

/// A filter of a duplicate-free sequence is duplicate-free.
proof fn lemma_filter_no_duplicates(
    s: Seq<StarboardOverride>,
    pred: spec_fn(StarboardOverride) -> bool,
)
    requires
        s.no_duplicates(),
    ensures
        s.filter(pred).no_duplicates(),
    decreases s.len(),
{
    reveal_with_fuel(Seq::filter, 2);
    if s.len() > 0 {
        let d = s.drop_last();
        assert(d.no_duplicates());
        lemma_filter_no_duplicates(d, pred);
        if pred(s.last()) {
            assert(!d.contains(s.last())) by {
                if d.contains(s.last()) {
                    let j = choose|j: int| 0 <= j < d.len() && d[j] == s.last();
                    assert(s[j] == s[s.len() - 1]);
                }
            }
            if d.filter(pred).contains(s.last()) {
                lemma_filter_subset(d, pred, s.last());
            }
            let out = d.filter(pred).push(s.last());
            assert(s.filter(pred) == out);
            assert forall|i: int, j: int|
                0 <= i < out.len() && 0 <= j < out.len() && i != j implies out[i] != out[j] by {
                if i < out.len() - 1 && j < out.len() - 1 {
                    assert(d.filter(pred)[i] != d.filter(pred)[j]);
                } else if j == out.len() - 1 && i < j {
                    assert(d.filter(pred).contains(out[i]));
                    lemma_filter_subset(d, pred, out[i]);
                } else if i == out.len() - 1 && j < i {
                    assert(d.filter(pred).contains(out[j]));
                    lemma_filter_subset(d, pred, out[j]);
                }
            }
        }
    }
}

/// Two sequences of overrides that are sorted by id and hold the same
/// rows are equal, as long as no id repeats.
proof fn lemma_sorted_by_id_unique(x: Seq<StarboardOverride>, y: Seq<StarboardOverride>)
    requires
        sorted_by(x, override_id_leq()),
        sorted_by(y, override_id_leq()),
        x.to_multiset() == y.to_multiset(),
        forall|i: int, j: int| 0 <= i < j < x.len() ==> (#[trigger] x[i]).id != (#[trigger] x[j]).id,
    ensures
        x =~= y,
    decreases x.len(),
{
    broadcast use vstd::multiset::group_multiset_axioms;

    x.to_multiset_ensures();
    y.to_multiset_ensures();
    if x.len() == 0 {
        assert(y.to_multiset().len() == 0);
        assert(y.len() == 0);
    } else if y.len() == 0 {
        assert(x.to_multiset().len() == 0);
    } else {
        assert(y.to_multiset().contains(y[0]));
        assert(x.to_multiset().contains(y[0]));
        assert(x.contains(y[0]));
        let i = choose|i: int| 0 <= i < x.len() && x[i] == y[0];
        assert(x.to_multiset().contains(x[0]));
        assert(y.to_multiset().contains(x[0]));
        assert(y.contains(x[0]));
        let k = choose|k: int| 0 <= k < y.len() && y[k] == x[0];
        if i > 0 {
            assert(override_id_leq()(x[0], x[i]));
            assert(override_id_leq()(y[0], y[k]));
            assert(x[0].id <= y[0].id && y[0].id <= x[0].id);
            assert(x[0].id == x[i].id);
            assert(false);
        }
        assert(x[0] == y[0]);
        assert(x.drop_first() =~= x.remove(0));
        assert(x.remove(0).to_multiset() =~= x.to_multiset().remove(x[0]));
        assert(y.drop_first() =~= y.remove(0));
        assert(y.remove(0).to_multiset() =~= y.to_multiset().remove(y[0]));
        assert(x.drop_first().to_multiset() == y.drop_first().to_multiset());
        assert forall|a: int, b: int|
            0 <= a < b < x.drop_first().len() implies (#[trigger] x.drop_first()[a]).id != (
        #[trigger] x.drop_first()[b]).id by {
            assert(x[a + 1].id != x[b + 1].id);
        }
        assert(vstd::relations::sorted_by(x.drop_first(), override_id_leq())) by {
            assert forall|a: int, b: int|
                0 <= a < b < x.drop_first().len() implies #[trigger] override_id_leq()(
                x.drop_first()[a],
                x.drop_first()[b],
            ) by {
                assert(override_id_leq()(x[a + 1], x[b + 1]));
            }
        }
        assert(vstd::relations::sorted_by(y.drop_first(), override_id_leq())) by {
            assert forall|a: int, b: int|
                0 <= a < b < y.drop_first().len() implies #[trigger] override_id_leq()(
                y.drop_first()[a],
                y.drop_first()[b],
            ) by {
                assert(override_id_leq()(y[a + 1], y[b + 1]));
            }
        }
        lemma_sorted_by_id_unique(x.drop_first(), y.drop_first());
        assert forall|j: int| 0 <= j < x.len() implies x[j] == y[j] by {
            if j > 0 {
                assert(x.drop_first()[j - 1] == y.drop_first()[j - 1]);
            }
        }
    }
}

/// Law: resolution is deterministic. Recomputing the effective settings
/// from the same base, overrides and premium state gives the same result:
/// any two outcomes that [`resolve`]'s contract admits coincide, as long as
/// the override ids are distinct — which the override store guarantees.
pub proof fn lemma_resolve_deterministic(
    base: SettingsModel,
    all: Seq<StarboardOverride>,
    channel_id: i64,
    category_id: Option<i64>,
    premium: bool,
    sel1: Seq<StarboardOverride>,
    sel2: Seq<StarboardOverride>,
    r1: SettingsModel,
    r2: SettingsModel,
)
    requires
        forall|i: int, j: int|
            0 <= i < j < all.len() ==> (#[trigger] all[i]).id != (#[trigger] all[j]).id,
        sorted_by(sel1, override_id_leq()),
        sel1.to_multiset() == all.filter(applies_pred(channel_id, category_id)).to_multiset(),
        r1 == premium_gate_model(fold_merge_model(base, patch_models(sel1)), premium),
        sorted_by(sel2, override_id_leq()),
        sel2.to_multiset() == all.filter(applies_pred(channel_id, category_id)).to_multiset(),
        r2 == premium_gate_model(fold_merge_model(base, patch_models(sel2)), premium),
    ensures
        r1 == r2,
{
    broadcast use vstd::multiset::group_multiset_axioms;

    let pred = applies_pred(channel_id, category_id);
    let filtered = all.filter(pred);
    sel1.to_multiset_ensures();
    filtered.to_multiset_ensures();
    // distinct ids make the table duplicate-free, the filter keeps it so,
    // and the selection holds the same rows
    assert(all.no_duplicates());
    lemma_filter_no_duplicates(all, pred);
    filtered.lemma_multiset_has_no_duplicates();
    sel1.lemma_multiset_has_no_duplicates_conv();
    // distinct ids carry from the table through the filter to the selection
    assert forall|i: int, j: int|
        0 <= i < j < sel1.len() implies (#[trigger] sel1[i]).id != (#[trigger] sel1[j]).id by {
        if sel1[i].id == sel1[j].id {
            assert(sel1[i] != sel1[j]);
            assert(sel1.contains(sel1[i]));
            assert(sel1.to_multiset().contains(sel1[i]));
            assert(sel1.contains(sel1[j]));
            assert(sel1.to_multiset().contains(sel1[j]));
            assert(filtered.to_multiset().contains(sel1[i]));
            assert(filtered.contains(sel1[i]));
            lemma_filter_subset(all, pred, sel1[i]);
            assert(filtered.to_multiset().contains(sel1[j]));
            assert(filtered.contains(sel1[j]));
            lemma_filter_subset(all, pred, sel1[j]);
            let a = choose|a: int| 0 <= a < all.len() && all[a] == sel1[i];
            let b = choose|b: int| 0 <= b < all.len() && all[b] == sel1[j];
            assert(all[a].id == all[b].id);
            assert(a != b);
            assert(false);
        }
    }
    lemma_sorted_by_id_unique(sel1, sel2);
    assert(patch_models(sel1) =~= patch_models(sel2));
}

} // verus!
