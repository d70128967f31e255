//! The usage aggregator: grouping usages by structural identity and the
//! per-group statistics over prop patterns, with deterministic ordering.
use vstd::prelude::*;
use vstd::multiset::Multiset;
use vstd::string::*;

use crate::identity::ComponentIdentity;
use crate::identity::ComponentIdentityV;
use crate::occurrence::SimplifiedProp;
use crate::occurrence::SimplifiedPropV;
use crate::usage::ComponentUsage;
use crate::usage::ComponentUsageV;

verus! {

broadcast use vstd::seq_lib::group_to_multiset_ensures, vstd::multiset::group_multiset_axioms;

/// One observed `(pattern, value, raw)` triple of a prop key, with how often
/// it was observed in the group.
#[derive(Debug)]
pub struct ValueDistribution {
    pub value_pattern: String,
    pub value: Option<String>,
    pub raw: String,
    pub count: usize,
}

pub ghost struct ValueDistributionV {
    pub value_pattern: Seq<char>,
    pub value: Option<Seq<char>>,
    pub raw: Seq<char>,
    pub count: usize,
}

impl View for ValueDistribution {
    type V = ValueDistributionV;

    open spec fn view(&self) -> ValueDistributionV {
        ValueDistributionV {
            value_pattern: self.value_pattern@,
            value: self.value.deep_view(),
            raw: self.raw@,
            count: self.count,
        }
    }
}

impl DeepView for ValueDistribution {
    type V = ValueDistributionV;

    open spec fn deep_view(&self) -> ValueDistributionV {
        self.view()
    }
}

impl Clone for ValueDistribution {
    fn clone(&self) -> (r: Self)
        ensures
            r@ == self@,
    {
        ValueDistribution {
            value_pattern: self.value_pattern.clone(),
            value: match &self.value {
                Some(v) => Some(v.clone()),
                None => None,
            },
            raw: self.raw.clone(),
            count: self.count,
        }
    }
}

impl ValueDistribution {
    pub fn new(value_pattern: String, value: Option<String>, raw: String, count: usize) -> (r:
        Self)
        ensures
            r@ == (ValueDistributionV {
                value_pattern: value_pattern@,
                value: value.deep_view(),
                raw: raw@,
                count,
            }),
    {
        ValueDistribution { value_pattern, value, raw, count }
    }

    pub fn value_pattern(&self) -> (r: &str)
        ensures
            r@ == self@.value_pattern,
    {
        self.value_pattern.as_str()
    }

    pub fn value(&self) -> (r: Option<&str>)
        ensures
            r.deep_view() == self@.value,
    {
        match &self.value {
            Some(v) => Some(v.as_str()),
            None => None,
        }
    }

    pub fn raw(&self) -> (r: &str)
        ensures
            r@ == self@.raw,
    {
        self.raw.as_str()
    }

    pub fn count(&self) -> (r: usize)
        ensures
            r == self@.count,
    {
        self.count
    }
}

/// The distribution of one prop key over its observed value triples.
#[derive(Debug)]
pub struct PropPattern {
    pub key: String,
    pub distribution: Vec<ValueDistribution>,
}

pub ghost struct PropPatternV {
    pub key: Seq<char>,
    pub distribution: Seq<ValueDistributionV>,
}

impl View for PropPattern {
    type V = PropPatternV;

    open spec fn view(&self) -> PropPatternV {
        PropPatternV { key: self.key@, distribution: self.distribution.deep_view() }
    }
}

impl DeepView for PropPattern {
    type V = PropPatternV;

    open spec fn deep_view(&self) -> PropPatternV {
        self.view()
    }
}

impl Clone for PropPattern {
    fn clone(&self) -> (r: Self)
        ensures
            r@ == self@,
    {
        let distribution = self.distribution.clone();
        proof {
            assert forall|i: int| 0 <= i < distribution.deep_view().len() implies
                distribution.deep_view()[i] == self.distribution.deep_view()[i] by {
                assert(cloned::<ValueDistribution>(self.distribution[i], distribution[i]));
            }
            assert(distribution.deep_view() =~= self.distribution.deep_view());
        }
        PropPattern { key: self.key.clone(), distribution }
    }
}

impl PropPattern {
    pub fn new(key: String, distribution: Vec<ValueDistribution>) -> (r: Self)
        ensures
            r@ == (PropPatternV { key: key@, distribution: distribution.deep_view() }),
    {
        PropPattern { key, distribution }
    }

    pub fn key(&self) -> (r: &str)
        ensures
            r@ == self@.key,
    {
        self.key.as_str()
    }

    pub fn distribution(&self) -> (r: &Vec<ValueDistribution>)
        ensures
            r.deep_view() == self@.distribution,
    {
        &self.distribution
    }
}

/// The `(key, (pattern, value, raw))` pair a simplified prop is counted as.
pub open spec fn prop_pair(p: SimplifiedPropV) -> (
    Seq<char>,
    (Seq<char>, Option<Seq<char>>, Seq<char>),
) {
    (p.key, (p.value_pattern, p.value, p.raw))
}

/// The triple a distribution entry stands for.
pub open spec fn dist_triple(d: ValueDistributionV) -> (
    Seq<char>,
    Option<Seq<char>>,
    Seq<char>,
) {
    (d.value_pattern, d.value, d.raw)
}

/// All simplified props of a usage list, in order.
pub open spec fn all_props_spec(usages: Seq<ComponentUsageV>) -> Seq<SimplifiedPropV>
    decreases usages.len(),
{
    if usages.len() == 0 {
        Seq::<SimplifiedPropV>::empty()
    } else {
        all_props_spec(usages.drop_last()) + usages.last().simplified_props
    }
}

/// The multiset of `(key, triple)` observations across a usage list.
pub open spec fn usages_prop_multiset(usages: Seq<ComponentUsageV>) -> Multiset<
    (Seq<char>, (Seq<char>, Option<Seq<char>>, Seq<char>)),
> {
    all_props_spec(usages).map_values(|p: SimplifiedPropV| prop_pair(p)).to_multiset()
}

/// What a correct prop-pattern table says of an observation multiset: keys
/// are listed once each, every listed triple is distinct within its key and
/// carries exactly its observation count, at least one, and every observed
/// pair is listed.
pub open spec fn valid_prop_patterns(
    ps: Seq<PropPatternV>,
    m: Multiset<(Seq<char>, (Seq<char>, Option<Seq<char>>, Seq<char>))>,
) -> bool {
    &&& forall|i: int, j: int|
        0 <= i < j < ps.len() ==> (#[trigger] ps[i]).key != (#[trigger] ps[j]).key
    &&& forall|i: int| 0 <= i < ps.len() ==> (#[trigger] ps[i]).distribution.len() >= 1
    &&& forall|i: int, j: int, k: int|
        0 <= i < ps.len() && 0 <= j < k < ps[i].distribution.len() ==> dist_triple(
            #[trigger] ps[i].distribution[j],
        ) != dist_triple(#[trigger] ps[i].distribution[k])
    &&& forall|i: int, j: int|
        0 <= i < ps.len() && 0 <= j < ps[i].distribution.len() ==> {
            &&& (#[trigger] ps[i].distribution[j]).count == m.count(
                (ps[i].key, dist_triple(ps[i].distribution[j])),
            )
            &&& ps[i].distribution[j].count >= 1
        }
    &&& forall|q: (Seq<char>, (Seq<char>, Option<Seq<char>>, Seq<char>))|
        #[trigger] m.count(q) > 0 ==> exists|i: int, j: int|
            0 <= i < ps.len() && 0 <= j < ps[i].distribution.len() && ps[i].key == q.0
                && dist_triple(#[trigger] ps[i].distribution[j]) == q.1
}

/// Whether a distribution entry stands for exactly this prop's triple.
fn entry_matches_prop(d: &ValueDistribution, p: &SimplifiedProp) -> (r: bool)
    ensures
        r == (dist_triple(d@) == (p@.value_pattern, p@.value, p@.raw)),
{
    let pattern_eq = d.value_pattern == p.value_pattern;
    let value_eq: bool = match (&d.value, &p.value) {
        (None, None) => true,
        (Some(a), Some(b)) => *a == *b,
        _ => false,
    };
    let raw_eq = d.raw == p.raw;
    pattern_eq && value_eq && raw_eq
}

/// Copy a distribution with entry `j` counted once more.
fn bump_distribution(dist: &Vec<ValueDistribution>, j: usize) -> (r: Vec<ValueDistribution>)
    requires
        j < dist@.len(),
        dist.deep_view()[j as int].count < usize::MAX,
    ensures
        r.deep_view() == dist.deep_view().update(
            j as int,
            ValueDistributionV {
                count: (dist.deep_view()[j as int].count + 1) as usize,
                ..dist.deep_view()[j as int]
            },
        ),
{
    let mut out: Vec<ValueDistribution> = Vec::new();
    let mut i: usize = 0;
    while i < dist.len()
        invariant
            0 <= i <= dist@.len(),
            j < dist@.len(),
            dist.deep_view()[j as int].count < usize::MAX,
            out.deep_view().len() == i,
            forall|k: int|
                0 <= k < i && k != j ==> #[trigger] out.deep_view()[k] == dist.deep_view()[k],
            i > j ==> out.deep_view()[j as int] == (ValueDistributionV {
                count: (dist.deep_view()[j as int].count + 1) as usize,
                ..dist.deep_view()[j as int]
            }),
        decreases dist@.len() - i,
    {
        let d = &dist[i];
        let ghost prev = out.deep_view();
        if i == j {
            out.push(
                ValueDistribution {
                    value_pattern: d.value_pattern.clone(),
                    value: match &d.value {
                        Some(v) => Some(v.clone()),
                        None => None,
                    },
                    raw: d.raw.clone(),
                    count: d.count + 1,
                },
            );
            proof {
                assert(out.deep_view() =~= prev.push(
                    ValueDistributionV {
                        count: (dist.deep_view()[j as int].count + 1) as usize,
                        ..dist.deep_view()[j as int]
                    },
                ));
            }
        } else {
            out.push(d.clone());
            proof {
                assert(out.deep_view() =~= prev.push(dist.deep_view()[i as int]));
            }
        }
        i = i + 1;
    }
    proof {
        assert(out.deep_view() =~= dist.deep_view().update(
            j as int,
            ValueDistributionV {
                count: (dist.deep_view()[j as int].count + 1) as usize,
                ..dist.deep_view()[j as int]
            },
        ));
    }
    out
}

/// Copy a distribution with one new entry for this prop's triple, counted
/// once.
fn extend_distribution(dist: &Vec<ValueDistribution>, p: &SimplifiedProp) -> (r: Vec<
    ValueDistribution,
>)
    ensures
        r.deep_view() == dist.deep_view().push(
            ValueDistributionV {
                value_pattern: p@.value_pattern,
                value: p@.value,
                raw: p@.raw,
                count: 1,
            },
        ),
{
    let mut out: Vec<ValueDistribution> = Vec::new();
    let mut i: usize = 0;
    while i < dist.len()
        invariant
            0 <= i <= dist@.len(),
            out.deep_view().len() == i,
            forall|k: int| 0 <= k < i ==> #[trigger] out.deep_view()[k] == dist.deep_view()[k],
        decreases dist@.len() - i,
    {
        let ghost prev = out.deep_view();
        out.push(dist[i].clone());
        proof {
            assert(out.deep_view() =~= prev.push(dist.deep_view()[i as int]));
        }
        i = i + 1;
    }
    let ghost prev2 = out.deep_view();
    out.push(
        ValueDistribution {
            value_pattern: p.value_pattern.clone(),
            value: match &p.value {
                Some(v) => Some(v.clone()),
                None => None,
            },
            raw: p.raw.clone(),
            count: 1,
        },
    );
    proof {
        assert(out.deep_view() =~= prev2.push(
            ValueDistributionV {
                value_pattern: p@.value_pattern,
                value: p@.value,
                raw: p@.raw,
                count: 1,
            },
        ));
        assert(prev2 =~= dist.deep_view());
        assert(out.deep_view() =~= dist.deep_view().push(
            ValueDistributionV {
                value_pattern: p@.value_pattern,
                value: p@.value,
                raw: p@.raw,
                count: 1,
            },
        ));
    }
    out
}

/// Flatten all usages' simplified props into one list, in order.
fn collect_all_props(usages: &Vec<ComponentUsage>) -> (r: Vec<SimplifiedProp>)
    ensures
        r.deep_view() == all_props_spec(usages.deep_view()),
{
    let ghost us = usages.deep_view();
    let mut out: Vec<SimplifiedProp> = Vec::new();
    let mut i: usize = 0;
    proof {
        assert(us.subrange(0, 0) =~= Seq::<ComponentUsageV>::empty());
        assert(out.deep_view() =~= all_props_spec(us.subrange(0, 0)));
    }
    while i < usages.len()
        invariant
            0 <= i <= usages.len(),
            us == usages.deep_view(),
            us.len() == usages.len(),
            out.deep_view() == all_props_spec(us.subrange(0, i as int)),
        decreases usages.len() - i,
    {
        let ghost prev = out.deep_view();
        let mut props = usages[i].simplified_props.clone();
        proof {
            assert forall|k: int| 0 <= k < props.deep_view().len() implies props.deep_view()[k]
                == usages@[i as int].simplified_props.deep_view()[k] by {
                assert(cloned::<SimplifiedProp>(usages@[i as int].simplified_props[k], props[k]));
            }
            assert(props.deep_view() =~= usages@[i as int].simplified_props.deep_view());
            assert(us[i as int] == usages@[i as int].deep_view());
            assert(props.deep_view() =~= us[i as int].simplified_props);
        }
        let ghost pd = props.deep_view();
        out.append(&mut props);
        proof {
            assert(out.deep_view() =~= prev + pd);
            assert(us.subrange(0, i + 1).drop_last() =~= us.subrange(0, i as int));
            assert(us.subrange(0, i + 1).last() == us[i as int]);
            assert(out.deep_view() =~= all_props_spec(us.subrange(0, i + 1)));
        }
        i = i + 1;
    }
    proof {
        assert(us.subrange(0, usages.len() as int) =~= us);
    }
    out
}

/// Compute the per-key value distributions of a usage list: one pattern per
/// distinct key, one entry per distinct `(pattern, value, raw)` triple under
/// that key, each with exactly its observation count.
pub fn compute_prop_patterns(usages: &Vec<ComponentUsage>) -> (r: Vec<PropPattern>)
    ensures
        valid_prop_patterns(r.deep_view(), usages_prop_multiset(usages.deep_view())),
{
    let all_props = collect_all_props(usages);
    let ghost pairs = all_props.deep_view().map_values(|p: SimplifiedPropV| prop_pair(p));
    let mut patterns: Vec<PropPattern> = Vec::new();
    let mut i: usize = 0;
    proof {
        assert(pairs.subrange(0, 0) =~= Seq::<
            (Seq<char>, (Seq<char>, Option<Seq<char>>, Seq<char>)),
        >::empty());
        assert(pairs.subrange(0, 0).to_multiset() =~= Multiset::<
            (Seq<char>, (Seq<char>, Option<Seq<char>>, Seq<char>)),
        >::empty());
    }
    while i < all_props.len()
        invariant
            0 <= i <= all_props.len(),
            pairs == all_props.deep_view().map_values(|p: SimplifiedPropV| prop_pair(p)),
            pairs.len() == all_props.len(),
            valid_prop_patterns(patterns.deep_view(), pairs.subrange(0, i as int).to_multiset()),
        decreases all_props.len() - i,
    {
        let p = &all_props[i];
        let ghost done = pairs.subrange(0, i as int).to_multiset();
        let ghost q = pairs[i as int];
        proof {
            assert(q == prop_pair(all_props.deep_view()[i as int]));
            assert(pairs.subrange(0, i + 1) =~= pairs.subrange(0, i as int).push(q));
            assert(pairs.subrange(0, i + 1).to_multiset() =~= done.insert(q));
            assert(done.len() == i) by {
                assert(pairs.subrange(0, i as int).len() == i);
            }
        }
        let ghost done2 = done.insert(q);
        // find the bucket for this key
        let mut bi: usize = 0;
        let mut bucket_found = false;
        while bi < patterns.len() && !bucket_found
            invariant
                0 <= bi <= patterns.len(),
                !bucket_found ==> forall|k: int|
                    0 <= k < bi ==> (#[trigger] patterns.deep_view()[k]).key
                        != all_props.deep_view()[i as int].key,
                bucket_found ==> bi < patterns.len() && patterns.deep_view()[bi as int].key
                    == all_props.deep_view()[i as int].key,
                i < all_props.deep_view().len(),
                p@ == all_props.deep_view()[i as int],
                patterns.deep_view().len() == patterns.len(),
            decreases patterns.len() - bi, (if bucket_found { 0int } else { 1int }),
        {
            proof {
                assert(patterns.deep_view()[bi as int] == patterns@[bi as int].deep_view());
                assert(all_props.deep_view()[i as int] == all_props@[i as int].deep_view());
                assert(p.key@ == all_props.deep_view()[i as int].key);
                assert(patterns@[bi as int].key@ == patterns.deep_view()[bi as int].key);
            }
            if patterns[bi].key == p.key {
                bucket_found = true;
                proof {
                    assert(patterns.deep_view()[bi as int].key
                        == all_props.deep_view()[i as int].key);
                }
            } else {
                proof {
                    assert(patterns.deep_view()[bi as int].key
                        != all_props.deep_view()[i as int].key);
                }
                bi = bi + 1;
            }
        }
        if bucket_found {
            // find the entry for this triple inside the bucket
            let dist_len = patterns[bi].distribution.len();
            let mut dj: usize = 0;
            let mut entry_found = false;
            while dj < dist_len && !entry_found
                invariant
                    0 <= dj <= dist_len,
                    bi < patterns.len(),
                    patterns.deep_view().len() == patterns.len(),
                    dist_len == patterns.deep_view()[bi as int].distribution.len(),
                    i < all_props.deep_view().len(),
                    p@ == all_props.deep_view()[i as int],
                    !entry_found ==> forall|k: int|
                        0 <= k < dj ==> dist_triple(
                            #[trigger] patterns.deep_view()[bi as int].distribution[k],
                        ) != (all_props.deep_view()[i as int].value_pattern,
                        all_props.deep_view()[i as int].value,
                        all_props.deep_view()[i as int].raw),
                    entry_found ==> dj < dist_len && dist_triple(
                        patterns.deep_view()[bi as int].distribution[dj as int],
                    ) == (all_props.deep_view()[i as int].value_pattern,
                    all_props.deep_view()[i as int].value,
                    all_props.deep_view()[i as int].raw),
                decreases dist_len - dj, (if entry_found { 0int } else { 1int }),
            {
                proof {
                    assert(patterns.deep_view()[bi as int] == patterns@[bi as int].deep_view());
                    assert(patterns.deep_view()[bi as int].distribution[dj as int]
                        == patterns@[bi as int].distribution.deep_view()[dj as int]);
                    assert(all_props.deep_view()[i as int] == all_props@[i as int].deep_view());
                    assert(p@ == all_props.deep_view()[i as int]);
                }
                if entry_matches_prop(&patterns[bi].distribution[dj], p) {
                    entry_found = true;
                    proof {
                        assert(dist_triple(patterns.deep_view()[bi as int].distribution[dj as int])
                            == (all_props.deep_view()[i as int].value_pattern,
                        all_props.deep_view()[i as int].value,
                        all_props.deep_view()[i as int].raw));
                    }
                } else {
                    proof {
                        assert(dist_triple(patterns.deep_view()[bi as int].distribution[dj as int])
                            != (all_props.deep_view()[i as int].value_pattern,
                        all_props.deep_view()[i as int].value,
                        all_props.deep_view()[i as int].raw));
                    }
                    dj = dj + 1;
                }
            }
            let ghost old_patterns = patterns.deep_view();
            proof {
                assert(old_patterns[bi as int] == patterns@[bi as int].deep_view());
                assert(old_patterns[bi as int].key == q.0);
            }
            if entry_found {
                proof {
                    assert(old_patterns[bi as int].distribution[dj as int]
                        == patterns@[bi as int].distribution.deep_view()[dj as int]);
                    assert(dist_triple(old_patterns[bi as int].distribution[dj as int]) == q.1);
                    assert(old_patterns[bi as int].distribution[dj as int].count == done.count(q));
                    assert(done.count(q) <= done.len());
                }
                let new_dist = bump_distribution(&patterns[bi].distribution, dj);
                let ghost nd = new_dist.deep_view();
                let new_bucket = PropPattern {
                    key: patterns[bi].key.clone(),
                    distribution: new_dist,
                };
                let ghost nb = new_bucket@;
                patterns.set(bi, new_bucket);
                proof {
                    assert(patterns.deep_view().len() == old_patterns.len());
                    assert(patterns.deep_view()[bi as int] == nb);
                    assert forall|k: int|
                        0 <= k < old_patterns.len() && k != bi as int implies #[trigger] patterns.deep_view()[k]
                        == old_patterns[k] by {
                        assert(patterns@[k] == patterns@[k]);
                    }
                    assert(nb.key == old_patterns[bi as int].key);
                    assert(nb.distribution == old_patterns[bi as int].distribution.update(
                        dj as int,
                        ValueDistributionV {
                            count: (old_patterns[bi as int].distribution[dj as int].count
                                + 1) as usize,
                            ..old_patterns[bi as int].distribution[dj as int]
                        },
                    ));
                    lemma_step_bump(
                        old_patterns,
                        patterns.deep_view(),
                        done,
                        q,
                        bi as int,
                        dj as int,
                    );
                }
            } else {
                let new_dist = extend_distribution(&patterns[bi].distribution, p);
                let ghost nd = new_dist.deep_view();
                let new_bucket = PropPattern {
                    key: patterns[bi].key.clone(),
                    distribution: new_dist,
                };
                let ghost nb = new_bucket@;
                patterns.set(bi, new_bucket);
                proof {
                    assert(patterns.deep_view().len() == old_patterns.len());
                    assert(patterns.deep_view()[bi as int] == nb);
                    assert forall|k: int|
                        0 <= k < old_patterns.len() && k != bi as int implies #[trigger] patterns.deep_view()[k]
                        == old_patterns[k] by {
                        assert(patterns@[k] == patterns@[k]);
                    }
                    assert(nb.key == old_patterns[bi as int].key);
                    assert(nb.distribution == old_patterns[bi as int].distribution.push(
                        ValueDistributionV {
                            value_pattern: q.1.0,
                            value: q.1.1,
                            raw: q.1.2,
                            count: 1,
                        },
                    ));
                    lemma_step_extend(old_patterns, patterns.deep_view(), done, q, bi as int);
                }
            }
        } else {
            let ghost old_patterns = patterns.deep_view();
            let mut dist: Vec<ValueDistribution> = Vec::new();
            dist.push(
                ValueDistribution {
                    value_pattern: p.value_pattern.clone(),
                    value: match &p.value {
                        Some(v) => Some(v.clone()),
                        None => None,
                    },
                    raw: p.raw.clone(),
                    count: 1,
                },
            );
            let ghost dd = dist.deep_view();
            let new_bucket = PropPattern { key: p.key.clone(), distribution: dist };
            let ghost nb = new_bucket@;
            patterns.push(new_bucket);
            proof {
                assert(patterns.deep_view().len() == old_patterns.len() + 1);
                assert(patterns.deep_view()[old_patterns.len() as int] == nb);
                assert forall|k: int|
                    0 <= k < old_patterns.len() implies #[trigger] patterns.deep_view()[k]
                    == old_patterns[k] by {
                    assert(patterns@[k] == patterns@[k]);
                }
                assert(nb.key == q.0);
                assert(dd.len() == 1);
                assert(dist_triple(dd[0]) == q.1);
                assert(dd[0].count == 1);
                lemma_step_new_bucket(old_patterns, patterns.deep_view(), done, q);
            }
        }
        i = i + 1;
    }
    proof {
        assert(pairs.subrange(0, all_props.len() as int) =~= pairs);
    }
    patterns
}

/// Bumping one existing entry keeps the table correct for the observation
/// multiset grown by that entry's pair.
proof fn lemma_step_bump(
    old_ps: Seq<PropPatternV>,
    new_ps: Seq<PropPatternV>,
    done: Multiset<(Seq<char>, (Seq<char>, Option<Seq<char>>, Seq<char>))>,
    q: (Seq<char>, (Seq<char>, Option<Seq<char>>, Seq<char>)),
    bi: int,
    dj: int,
)
    requires
        valid_prop_patterns(old_ps, done),
        0 <= bi < old_ps.len(),
        0 <= dj < old_ps[bi].distribution.len(),
        old_ps[bi].key == q.0,
        dist_triple(old_ps[bi].distribution[dj]) == q.1,
        old_ps[bi].distribution[dj].count < usize::MAX,
        new_ps.len() == old_ps.len(),
        forall|k: int| 0 <= k < old_ps.len() && k != bi ==> #[trigger] new_ps[k] == old_ps[k],
        new_ps[bi].key == old_ps[bi].key,
        new_ps[bi].distribution.len() == old_ps[bi].distribution.len(),
        forall|k: int|
            0 <= k < old_ps[bi].distribution.len() && k != dj
                ==> #[trigger] new_ps[bi].distribution[k] == old_ps[bi].distribution[k],
        dist_triple(new_ps[bi].distribution[dj]) == dist_triple(old_ps[bi].distribution[dj]),
        new_ps[bi].distribution[dj].count == old_ps[bi].distribution[dj].count + 1,
    ensures
        valid_prop_patterns(new_ps, done.insert(q)),
{
    let done2 = done.insert(q);
    assert forall|k: int| 0 <= k < new_ps.len() implies (#[trigger] new_ps[k]).key
        == old_ps[k].key by {}
    assert forall|i: int, j: int| 0 <= i < j < new_ps.len() implies (#[trigger] new_ps[i]).key
        != (#[trigger] new_ps[j]).key by {}
    assert forall|i: int| 0 <= i < new_ps.len() implies (#[trigger] new_ps[i]).distribution.len()
        >= 1 by {}
    assert forall|i: int, j: int, k: int|
        0 <= i < new_ps.len() && 0 <= j < k < new_ps[i].distribution.len() implies dist_triple(
        #[trigger] new_ps[i].distribution[j],
    ) != dist_triple(#[trigger] new_ps[i].distribution[k]) by {
        if i == bi {
            assert(dist_triple(new_ps[i].distribution[j]) == dist_triple(
                old_ps[i].distribution[j],
            ));
            assert(dist_triple(new_ps[i].distribution[k]) == dist_triple(
                old_ps[i].distribution[k],
            ));
        } else {
            assert(new_ps[i] == old_ps[i]);
        }
    }
    assert forall|i: int, j: int|
        0 <= i < new_ps.len() && 0 <= j < new_ps[i].distribution.len() implies {
        &&& (#[trigger] new_ps[i].distribution[j]).count == done2.count(
            (new_ps[i].key, dist_triple(new_ps[i].distribution[j])),
        )
        &&& new_ps[i].distribution[j].count >= 1
    } by {
        let pair = (new_ps[i].key, dist_triple(new_ps[i].distribution[j]));
        if i == bi && j == dj {
            assert(pair == q);
            assert(done2.count(q) == done.count(q) + 1);
            assert(new_ps[i].distribution[j].count == old_ps[i].distribution[j].count + 1);
        } else {
            if i == bi {
                assert(dist_triple(new_ps[i].distribution[j]) == dist_triple(
                    old_ps[i].distribution[j],
                ));
                assert(new_ps[i].distribution[j].count == old_ps[i].distribution[j].count);
                assert(dist_triple(old_ps[i].distribution[j]) != dist_triple(
                    old_ps[bi].distribution[dj],
                ));
                assert(pair != q);
            } else {
                assert(new_ps[i] == old_ps[i]);
                assert(old_ps[i].key != old_ps[bi].key);
                assert(pair != q);
            }
            assert(done2.count(pair) == done.count(pair));
        }
    }
    assert forall|q2: (Seq<char>, (Seq<char>, Option<Seq<char>>, Seq<char>))|
        #[trigger] done2.count(q2) > 0 implies exists|i: int, j: int|
        0 <= i < new_ps.len() && 0 <= j < new_ps[i].distribution.len() && new_ps[i].key == q2.0
            && dist_triple(#[trigger] new_ps[i].distribution[j]) == q2.1 by {
        if q2 == q {
            assert(new_ps[bi].key == q.0);
            assert(dist_triple(new_ps[bi].distribution[dj]) == q.1);
        } else {
            assert(done.count(q2) > 0);
            let (i, j) = choose|i: int, j: int|
                0 <= i < old_ps.len() && 0 <= j < old_ps[i].distribution.len() && old_ps[i].key
                    == q2.0 && dist_triple(#[trigger] old_ps[i].distribution[j]) == q2.1;
            if i == bi && j == dj {
                assert(q2.0 == q.0 && q2.1 == q.1);
                assert(q2 == q);
            } else {
                assert(new_ps[i].key == q2.0);
                if i == bi {
                    assert(dist_triple(new_ps[i].distribution[j]) == dist_triple(
                        old_ps[i].distribution[j],
                    ));
                } else {
                    assert(new_ps[i] == old_ps[i]);
                }
                assert(dist_triple(new_ps[i].distribution[j]) == q2.1);
            }
        }
    }
}

/// Adding a new entry under an existing key keeps the table correct for the
/// observation multiset grown by that pair.
proof fn lemma_step_extend(
    old_ps: Seq<PropPatternV>,
    new_ps: Seq<PropPatternV>,
    done: Multiset<(Seq<char>, (Seq<char>, Option<Seq<char>>, Seq<char>))>,
    q: (Seq<char>, (Seq<char>, Option<Seq<char>>, Seq<char>)),
    bi: int,
)
    requires
        valid_prop_patterns(old_ps, done),
        0 <= bi < old_ps.len(),
        old_ps[bi].key == q.0,
        forall|k: int|
            0 <= k < old_ps[bi].distribution.len() ==> dist_triple(
                #[trigger] old_ps[bi].distribution[k],
            ) != q.1,
        new_ps.len() == old_ps.len(),
        forall|k: int| 0 <= k < old_ps.len() && k != bi ==> #[trigger] new_ps[k] == old_ps[k],
        new_ps[bi].key == old_ps[bi].key,
        new_ps[bi].distribution.len() == old_ps[bi].distribution.len() + 1,
        forall|k: int|
            0 <= k < old_ps[bi].distribution.len() ==> #[trigger] new_ps[bi].distribution[k]
                == old_ps[bi].distribution[k],
        dist_triple(new_ps[bi].distribution[old_ps[bi].distribution.len() as int]) == q.1,
        new_ps[bi].distribution[old_ps[bi].distribution.len() as int].count == 1,
    ensures
        valid_prop_patterns(new_ps, done.insert(q)),
{
    let done2 = done.insert(q);
    let old_len = old_ps[bi].distribution.len() as int;
    assert forall|k: int| 0 <= k < new_ps.len() implies (#[trigger] new_ps[k]).key
        == old_ps[k].key by {}
    assert forall|i: int, j: int| 0 <= i < j < new_ps.len() implies (#[trigger] new_ps[i]).key
        != (#[trigger] new_ps[j]).key by {}
    assert forall|i: int| 0 <= i < new_ps.len() implies (#[trigger] new_ps[i]).distribution.len()
        >= 1 by {}
    assert(done.count(q) == 0) by {
        if done.count(q) > 0 {
            let (i, j) = choose|i: int, j: int|
                0 <= i < old_ps.len() && 0 <= j < old_ps[i].distribution.len() && old_ps[i].key
                    == q.0 && dist_triple(#[trigger] old_ps[i].distribution[j]) == q.1;
            if i != bi {
                assert(old_ps[i].key != old_ps[bi].key);
            }
            assert(false);
        }
    }
    assert(dist_triple(new_ps[bi].distribution[old_len]) == q.1);
    assert forall|i: int, j: int, k: int|
        0 <= i < new_ps.len() && 0 <= j < k < new_ps[i].distribution.len() implies dist_triple(
        #[trigger] new_ps[i].distribution[j],
    ) != dist_triple(#[trigger] new_ps[i].distribution[k]) by {
        if i == bi {
            if k == old_len {
                assert(dist_triple(new_ps[i].distribution[j]) == dist_triple(
                    old_ps[bi].distribution[j],
                ));
                assert(dist_triple(new_ps[i].distribution[k]) == q.1);
            } else {
                assert(new_ps[i].distribution[j] == old_ps[i].distribution[j]);
                assert(new_ps[i].distribution[k] == old_ps[i].distribution[k]);
            }
        } else {
            assert(new_ps[i] == old_ps[i]);
        }
    }
    assert forall|i: int, j: int|
        0 <= i < new_ps.len() && 0 <= j < new_ps[i].distribution.len() implies {
        &&& (#[trigger] new_ps[i].distribution[j]).count == done2.count(
            (new_ps[i].key, dist_triple(new_ps[i].distribution[j])),
        )
        &&& new_ps[i].distribution[j].count >= 1
    } by {
        let pair = (new_ps[i].key, dist_triple(new_ps[i].distribution[j]));
        if i == bi && j == old_len {
            assert(pair == q);
            assert(done2.count(q) == done.count(q) + 1);
        } else {
            if i == bi {
                assert(new_ps[i].distribution[j] == old_ps[i].distribution[j]);
                assert(pair != q);
            } else {
                assert(new_ps[i] == old_ps[i]);
                assert(old_ps[i].key != old_ps[bi].key);
                assert(pair != q);
            }
            assert(done2.count(pair) == done.count(pair));
        }
    }
    assert forall|q2: (Seq<char>, (Seq<char>, Option<Seq<char>>, Seq<char>))|
        #[trigger] done2.count(q2) > 0 implies exists|i: int, j: int|
        0 <= i < new_ps.len() && 0 <= j < new_ps[i].distribution.len() && new_ps[i].key == q2.0
            && dist_triple(#[trigger] new_ps[i].distribution[j]) == q2.1 by {
        if q2 == q {
            assert(new_ps[bi].key == q.0);
            assert(dist_triple(new_ps[bi].distribution[old_len]) == q.1);
        } else {
            assert(done.count(q2) > 0);
            let (i, j) = choose|i: int, j: int|
                0 <= i < old_ps.len() && 0 <= j < old_ps[i].distribution.len() && old_ps[i].key
                    == q2.0 && dist_triple(#[trigger] old_ps[i].distribution[j]) == q2.1;
            if i == bi {
                assert(new_ps[i].distribution[j] == old_ps[i].distribution[j]);
            } else {
                assert(new_ps[i] == old_ps[i]);
            }
            assert(new_ps[i].key == q2.0);
            assert(dist_triple(new_ps[i].distribution[j]) == q2.1);
        }
    }
}

/// Opening a new key's bucket keeps the table correct for the observation
/// multiset grown by that pair.
proof fn lemma_step_new_bucket(
    old_ps: Seq<PropPatternV>,
    new_ps: Seq<PropPatternV>,
    done: Multiset<(Seq<char>, (Seq<char>, Option<Seq<char>>, Seq<char>))>,
    q: (Seq<char>, (Seq<char>, Option<Seq<char>>, Seq<char>)),
)
    requires
        valid_prop_patterns(old_ps, done),
        forall|k: int| 0 <= k < old_ps.len() ==> (#[trigger] old_ps[k]).key != q.0,
        new_ps.len() == old_ps.len() + 1,
        forall|k: int| 0 <= k < old_ps.len() ==> #[trigger] new_ps[k] == old_ps[k],
        new_ps[old_ps.len() as int].key == q.0,
        new_ps[old_ps.len() as int].distribution.len() == 1,
        dist_triple(new_ps[old_ps.len() as int].distribution[0]) == q.1,
        new_ps[old_ps.len() as int].distribution[0].count == 1,
    ensures
        valid_prop_patterns(new_ps, done.insert(q)),
{
    let done2 = done.insert(q);
    let old_len = old_ps.len() as int;
    assert forall|i: int, j: int| 0 <= i < j < new_ps.len() implies (#[trigger] new_ps[i]).key
        != (#[trigger] new_ps[j]).key by {
        if j == old_len {
            assert(new_ps[i] == old_ps[i]);
            assert(old_ps[i].key != q.0);
        } else {
            assert(new_ps[i] == old_ps[i]);
            assert(new_ps[j] == old_ps[j]);
        }
    }
    assert forall|i: int| 0 <= i < new_ps.len() implies (#[trigger] new_ps[i]).distribution.len()
        >= 1 by {
        if i < old_len {
            assert(new_ps[i] == old_ps[i]);
        }
    }
    assert forall|i: int, j: int, k: int|
        0 <= i < new_ps.len() && 0 <= j < k < new_ps[i].distribution.len() implies dist_triple(
        #[trigger] new_ps[i].distribution[j],
    ) != dist_triple(#[trigger] new_ps[i].distribution[k]) by {
        if i < old_len {
            assert(new_ps[i] == old_ps[i]);
        }
    }
    assert(done.count(q) == 0) by {
        if done.count(q) > 0 {
            let (i, j) = choose|i: int, j: int|
                0 <= i < old_ps.len() && 0 <= j < old_ps[i].distribution.len() && old_ps[i].key
                    == q.0 && dist_triple(#[trigger] old_ps[i].distribution[j]) == q.1;
            assert(old_ps[i].key != q.0);
            assert(false);
        }
    }
    assert(new_ps[old_len].key == q.0);
    assert(dist_triple(new_ps[old_len].distribution[0]) == q.1);
    assert forall|i: int, j: int|
        0 <= i < new_ps.len() && 0 <= j < new_ps[i].distribution.len() implies {
        &&& (#[trigger] new_ps[i].distribution[j]).count == done2.count(
            (new_ps[i].key, dist_triple(new_ps[i].distribution[j])),
        )
        &&& new_ps[i].distribution[j].count >= 1
    } by {
        let pair = (new_ps[i].key, dist_triple(new_ps[i].distribution[j]));
        if i == old_len {
            assert(j == 0);
            assert(pair == q);
            assert(done2.count(q) == done.count(q) + 1);
        } else {
            assert(new_ps[i] == old_ps[i]);
            assert(old_ps[i].key != q.0);
            assert(pair != q);
            assert(done2.count(pair) == done.count(pair));
        }
    }
    assert forall|q2: (Seq<char>, (Seq<char>, Option<Seq<char>>, Seq<char>))|
        #[trigger] done2.count(q2) > 0 implies exists|i: int, j: int|
        0 <= i < new_ps.len() && 0 <= j < new_ps[i].distribution.len() && new_ps[i].key == q2.0
            && dist_triple(#[trigger] new_ps[i].distribution[j]) == q2.1 by {
        if q2 == q {
            assert(new_ps[old_len].key == q.0);
            assert(dist_triple(new_ps[old_len].distribution[0]) == q.1);
        } else {
            assert(done.count(q2) > 0);
            let (i, j) = choose|i: int, j: int|
                0 <= i < old_ps.len() && 0 <= j < old_ps[i].distribution.len() && old_ps[i].key
                    == q2.0 && dist_triple(#[trigger] old_ps[i].distribution[j]) == q2.1;
            assert(new_ps[i] == old_ps[i]);
            assert(new_ps[i].key == q2.0);
            assert(dist_triple(new_ps[i].distribution[j]) == q2.1);
        }
    }
}

/// The statistics of one group: its usage count and the per-key value
/// distributions.
#[derive(Debug)]
pub struct UsageStatistics {
    pub total_count: usize,
    pub prop_patterns: Vec<PropPattern>,
}

pub ghost struct UsageStatisticsV {
    pub total_count: usize,
    pub prop_patterns: Seq<PropPatternV>,
}

impl View for UsageStatistics {
    type V = UsageStatisticsV;

    open spec fn view(&self) -> UsageStatisticsV {
        UsageStatisticsV {
            total_count: self.total_count,
            prop_patterns: self.prop_patterns.deep_view(),
        }
    }
}

impl UsageStatistics {
    /// Compute a group's statistics: the usage count and, per key, the
    /// distribution over distinct value triples with exact counts.
    pub fn compute(usages: &Vec<ComponentUsage>) -> (r: Self)
        ensures
            r@.total_count == usages@.len(),
            valid_prop_patterns(r@.prop_patterns, usages_prop_multiset(usages.deep_view())),
    {
        let total_count = usages.len();
        let prop_patterns = compute_prop_patterns(usages);
        UsageStatistics { total_count, prop_patterns }
    }

    pub fn total_count(&self) -> (r: usize)
        ensures
            r == self@.total_count,
    {
        self.total_count
    }

    pub fn prop_patterns(&self) -> (r: &Vec<PropPattern>)
        ensures
            r.deep_view() == self@.prop_patterns,
    {
        &self.prop_patterns
    }
}

/// The deterministic order of usages inside a group: by file display path,
/// then by start offset.
pub open spec fn usage_le(a: ComponentUsageV, b: ComponentUsageV) -> bool {
    let pa = a.occurrence.location.file.relative_path;
    let pb = b.occurrence.location.file.relative_path;
    crate::text::str_lt(pa, pb) || (pa == pb && a.occurrence.location.span.start
        <= b.occurrence.location.span.start)
}

/// The deterministic order of patterns: by key.
pub open spec fn pattern_le(a: PropPatternV, b: PropPatternV) -> bool {
    crate::text::str_lt(a.key, b.key) || a.key == b.key
}

/// The order on optional strings: absent first, then lexicographic.
pub open spec fn opt_str_lt(a: Option<Seq<char>>, b: Option<Seq<char>>) -> bool {
    match (a, b) {
        (Option::None, Option::Some(_)) => true,
        (Option::Some(x), Option::Some(y)) => crate::text::str_lt(x, y),
        _ => false,
    }
}

/// The deterministic order of distribution entries: by raw, then value, then
/// pattern, then count.
pub open spec fn dist_le(a: ValueDistributionV, b: ValueDistributionV) -> bool {
    crate::text::str_lt(a.raw, b.raw) || (a.raw == b.raw && (opt_str_lt(a.value, b.value) || (
    a.value == b.value && (crate::text::str_lt(a.value_pattern, b.value_pattern) || (
    a.value_pattern == b.value_pattern && a.count <= b.count)))))
}

proof fn lemma_usage_le_total(a: ComponentUsageV, b: ComponentUsageV)
    ensures
        usage_le(a, b) || usage_le(b, a),
{
    crate::text::lemma_str_lt_connected(
        a.occurrence.location.file.relative_path,
        b.occurrence.location.file.relative_path,
    );
}

proof fn lemma_usage_le_transitive(a: ComponentUsageV, b: ComponentUsageV, c: ComponentUsageV)
    ensures
        usage_le(a, b) && usage_le(b, c) ==> usage_le(a, c),
{
    crate::text::lemma_str_lt_transitive(
        a.occurrence.location.file.relative_path,
        b.occurrence.location.file.relative_path,
        c.occurrence.location.file.relative_path,
    );
}

proof fn lemma_pattern_le_total(a: PropPatternV, b: PropPatternV)
    ensures
        pattern_le(a, b) || pattern_le(b, a),
{
    crate::text::lemma_str_lt_connected(a.key, b.key);
}

proof fn lemma_pattern_le_transitive(a: PropPatternV, b: PropPatternV, c: PropPatternV)
    ensures
        pattern_le(a, b) && pattern_le(b, c) ==> pattern_le(a, c),
{
    crate::text::lemma_str_lt_transitive(a.key, b.key, c.key);
}

proof fn lemma_opt_str_lt_connected(a: Option<Seq<char>>, b: Option<Seq<char>>)
    ensures
        opt_str_lt(a, b) || opt_str_lt(b, a) || a == b,
{
    match (a, b) {
        (Option::Some(x), Option::Some(y)) => {
            crate::text::lemma_str_lt_connected(x, y);
        },
        _ => {},
    }
}

proof fn lemma_opt_str_lt_transitive(
    a: Option<Seq<char>>,
    b: Option<Seq<char>>,
    c: Option<Seq<char>>,
)
    ensures
        opt_str_lt(a, b) && opt_str_lt(b, c) ==> opt_str_lt(a, c),
{
    match (a, b, c) {
        (Option::Some(x), Option::Some(y), Option::Some(z)) => {
            crate::text::lemma_str_lt_transitive(x, y, z);
        },
        _ => {},
    }
}

proof fn lemma_dist_le_total(a: ValueDistributionV, b: ValueDistributionV)
    ensures
        dist_le(a, b) || dist_le(b, a),
{
    crate::text::lemma_str_lt_connected(a.raw, b.raw);
    lemma_opt_str_lt_connected(a.value, b.value);
    crate::text::lemma_str_lt_connected(a.value_pattern, b.value_pattern);
}

proof fn lemma_dist_le_transitive(
    a: ValueDistributionV,
    b: ValueDistributionV,
    c: ValueDistributionV,
)
    ensures
        dist_le(a, b) && dist_le(b, c) ==> dist_le(a, c),
{
    crate::text::lemma_str_lt_transitive(a.raw, b.raw, c.raw);
    lemma_opt_str_lt_transitive(a.value, b.value, c.value);
    crate::text::lemma_str_lt_transitive(a.value_pattern, b.value_pattern, c.value_pattern);
}

/// Decide the usage order.
fn usage_le_exec(a: &ComponentUsage, b: &ComponentUsage) -> (r: bool)
    ensures
        r == usage_le(a@, b@),
{
    let pa = a.occurrence.location.file.relative_path.as_str();
    let pb = b.occurrence.location.file.relative_path.as_str();
    if crate::text::str_lt_exec(pa, pb) {
        true
    } else if crate::text::str_eq(pa, pb) {
        a.occurrence.location.span.start <= b.occurrence.location.span.start
    } else {
        false
    }
}

/// Decide the pattern order.
fn pattern_le_exec(a: &PropPattern, b: &PropPattern) -> (r: bool)
    ensures
        r == pattern_le(a@, b@),
{
    let ka = a.key.as_str();
    let kb = b.key.as_str();
    crate::text::str_lt_exec(ka, kb) || crate::text::str_eq(ka, kb)
}

/// Decide the distribution-entry order.
fn dist_le_exec(a: &ValueDistribution, b: &ValueDistribution) -> (r: bool)
    ensures
        r == dist_le(a@, b@),
{
    if crate::text::str_lt_exec(a.raw.as_str(), b.raw.as_str()) {
        return true;
    }
    if !crate::text::str_eq(a.raw.as_str(), b.raw.as_str()) {
        return false;
    }
    let value_lt: bool = match (&a.value, &b.value) {
        (None, Some(_)) => true,
        (Some(x), Some(y)) => crate::text::str_lt_exec(x.as_str(), y.as_str()),
        _ => false,
    };
    if value_lt {
        return true;
    }
    let value_eq: bool = match (&a.value, &b.value) {
        (None, None) => true,
        (Some(x), Some(y)) => crate::text::str_eq(x.as_str(), y.as_str()),
        _ => false,
    };
    if !value_eq {
        return false;
    }
    if crate::text::str_lt_exec(a.value_pattern.as_str(), b.value_pattern.as_str()) {
        return true;
    }
    if !crate::text::str_eq(a.value_pattern.as_str(), b.value_pattern.as_str()) {
        return false;
    }
    a.count <= b.count
}

/// Sort a usage list by the deterministic usage order.
fn sort_usages_vec(v: &mut Vec<ComponentUsage>)
    ensures
        final(v).deep_view().to_multiset() == old(v).deep_view().to_multiset(),
        vstd::relations::sorted_by(
            final(v).deep_view(),
            |a: ComponentUsageV, b: ComponentUsageV| usage_le(a, b),
        ),
{
    let ghost orig = v.deep_view().to_multiset();
    let ghost leq = |a: ComponentUsageV, b: ComponentUsageV| usage_le(a, b);
    let mut out: Vec<ComponentUsage> = Vec::new();
    proof {
        assert(out.deep_view().to_multiset().add(v.deep_view().to_multiset()) =~= orig);
    }
    while v.len() > 0
        invariant
            out.deep_view().to_multiset().add(v.deep_view().to_multiset()) == orig,
            vstd::relations::sorted_by(out.deep_view(), leq),
            leq == (|a: ComponentUsageV, b: ComponentUsageV| usage_le(a, b)),
            forall|x: int, y: int|
                0 <= x < out.deep_view().len() && 0 <= y < v.deep_view().len() ==> usage_le(
                    #[trigger] out.deep_view()[x],
                    #[trigger] v.deep_view()[y],
                ),
        decreases v.len(),
    {
        let mut m: usize = 0;
        let mut k: usize = 1;
        while k < v.len()
            invariant
                0 <= m < v.len(),
                1 <= k <= v.len(),
                v.deep_view().len() == v.len(),
                forall|j: int|
                    0 <= j < k ==> usage_le(
                        v.deep_view()[m as int],
                        #[trigger] v.deep_view()[j],
                    ),
            decreases v.len() - k,
        {
            if usage_le_exec(&v[k], &v[m]) {
                proof {
                    assert forall|j: int| 0 <= j < k + 1 implies usage_le(
                        v.deep_view()[k as int],
                        #[trigger] v.deep_view()[j],
                    ) by {
                        if j < k {
                            lemma_usage_le_transitive(
                                v.deep_view()[k as int],
                                v.deep_view()[m as int],
                                v.deep_view()[j],
                            );
                        }
                    }
                }
                m = k;
            } else {
                proof {
                    lemma_usage_le_total(v.deep_view()[m as int], v.deep_view()[k as int]);
                }
            }
            k = k + 1;
        }
        let ghost dv_before = v.deep_view();
        let ghost out_before = out.deep_view();
        let x = v.remove(m);
        out.push(x);
        proof {
            assert(v.deep_view() =~= dv_before.remove(m as int));
            assert(out.deep_view() =~= out_before.push(dv_before[m as int]));
            assert(out.deep_view().to_multiset() =~= out_before.to_multiset().insert(
                dv_before[m as int],
            ));
            assert(v.deep_view().to_multiset() =~= dv_before.to_multiset().remove(
                dv_before[m as int],
            ));
            assert(dv_before.to_multiset().count(dv_before[m as int]) > 0);
            assert(out.deep_view().to_multiset().add(v.deep_view().to_multiset()) =~= orig);
            assert forall|x1: int, y1: int|
                0 <= x1 < y1 < out.deep_view().len() implies leq(
                out.deep_view()[x1],
                out.deep_view()[y1],
            ) by {
                if y1 == out.deep_view().len() - 1 {
                    assert(usage_le(out_before[x1], dv_before[m as int]));
                }
            }
            assert(vstd::relations::sorted_by(out.deep_view(), leq));
            assert forall|x1: int, y1: int|
                0 <= x1 < out.deep_view().len() && 0 <= y1 < v.deep_view().len() implies usage_le(
                #[trigger] out.deep_view()[x1],
                #[trigger] v.deep_view()[y1],
            ) by {
                let w = if y1 < m as int {
                    y1
                } else {
                    y1 + 1
                };
                assert(v.deep_view()[y1] == dv_before[w]);
                if x1 < out_before.len() {
                    assert(usage_le(out_before[x1], dv_before[w]));
                } else {
                    assert(out.deep_view()[x1] == dv_before[m as int]);
                    assert(usage_le(dv_before[m as int], dv_before[w]));
                }
            }
        }
    }
    proof {
        assert(v.deep_view().to_multiset() =~= Multiset::<ComponentUsageV>::empty());
        assert(out.deep_view().to_multiset() =~= orig);
    }
    *v = out;
}

/// Sort a distribution by the deterministic entry order.
fn sort_distribution_vec(v: &mut Vec<ValueDistribution>)
    ensures
        final(v).deep_view().to_multiset() == old(v).deep_view().to_multiset(),
        vstd::relations::sorted_by(
            final(v).deep_view(),
            |a: ValueDistributionV, b: ValueDistributionV| dist_le(a, b),
        ),
{
    let ghost orig = v.deep_view().to_multiset();
    let ghost leq = |a: ValueDistributionV, b: ValueDistributionV| dist_le(a, b);
    let mut out: Vec<ValueDistribution> = Vec::new();
    proof {
        assert(out.deep_view().to_multiset().add(v.deep_view().to_multiset()) =~= orig);
    }
    while v.len() > 0
        invariant
            out.deep_view().to_multiset().add(v.deep_view().to_multiset()) == orig,
            vstd::relations::sorted_by(out.deep_view(), leq),
            leq == (|a: ValueDistributionV, b: ValueDistributionV| dist_le(a, b)),
            forall|x: int, y: int|
                0 <= x < out.deep_view().len() && 0 <= y < v.deep_view().len() ==> dist_le(
                    #[trigger] out.deep_view()[x],
                    #[trigger] v.deep_view()[y],
                ),
        decreases v.len(),
    {
        let mut m: usize = 0;
        let mut k: usize = 1;
        while k < v.len()
            invariant
                0 <= m < v.len(),
                1 <= k <= v.len(),
                v.deep_view().len() == v.len(),
                forall|j: int|
                    0 <= j < k ==> dist_le(v.deep_view()[m as int], #[trigger] v.deep_view()[j]),
            decreases v.len() - k,
        {
            if dist_le_exec(&v[k], &v[m]) {
                proof {
                    assert forall|j: int| 0 <= j < k + 1 implies dist_le(
                        v.deep_view()[k as int],
                        #[trigger] v.deep_view()[j],
                    ) by {
                        if j < k {
                            lemma_dist_le_transitive(
                                v.deep_view()[k as int],
                                v.deep_view()[m as int],
                                v.deep_view()[j],
                            );
                        }
                    }
                }
                m = k;
            } else {
                proof {
                    lemma_dist_le_total(v.deep_view()[m as int], v.deep_view()[k as int]);
                }
            }
            k = k + 1;
        }
        let ghost dv_before = v.deep_view();
        let ghost out_before = out.deep_view();
        let x = v.remove(m);
        out.push(x);
        proof {
            assert(v.deep_view() =~= dv_before.remove(m as int));
            assert(out.deep_view() =~= out_before.push(dv_before[m as int]));
            assert(out.deep_view().to_multiset() =~= out_before.to_multiset().insert(
                dv_before[m as int],
            ));
            assert(v.deep_view().to_multiset() =~= dv_before.to_multiset().remove(
                dv_before[m as int],
            ));
            assert(dv_before.to_multiset().count(dv_before[m as int]) > 0);
            assert(out.deep_view().to_multiset().add(v.deep_view().to_multiset()) =~= orig);
            assert forall|x1: int, y1: int|
                0 <= x1 < y1 < out.deep_view().len() implies leq(
                out.deep_view()[x1],
                out.deep_view()[y1],
            ) by {
                if y1 == out.deep_view().len() - 1 {
                    assert(dist_le(out_before[x1], dv_before[m as int]));
                }
            }
            assert(vstd::relations::sorted_by(out.deep_view(), leq));
            assert forall|x1: int, y1: int|
                0 <= x1 < out.deep_view().len() && 0 <= y1 < v.deep_view().len() implies dist_le(
                #[trigger] out.deep_view()[x1],
                #[trigger] v.deep_view()[y1],
            ) by {
                let w = if y1 < m as int {
                    y1
                } else {
                    y1 + 1
                };
                assert(v.deep_view()[y1] == dv_before[w]);
                if x1 < out_before.len() {
                    assert(dist_le(out_before[x1], dv_before[w]));
                } else {
                    assert(out.deep_view()[x1] == dv_before[m as int]);
                    assert(dist_le(dv_before[m as int], dv_before[w]));
                }
            }
        }
    }
    proof {
        assert(v.deep_view().to_multiset() =~= Multiset::<ValueDistributionV>::empty());
        assert(out.deep_view().to_multiset() =~= orig);
    }
    *v = out;
}

/// Sort a pattern list by key.
fn sort_patterns_vec(v: &mut Vec<PropPattern>)
    ensures
        final(v).deep_view().to_multiset() == old(v).deep_view().to_multiset(),
        vstd::relations::sorted_by(
            final(v).deep_view(),
            |a: PropPatternV, b: PropPatternV| pattern_le(a, b),
        ),
{
    let ghost orig = v.deep_view().to_multiset();
    let ghost leq = |a: PropPatternV, b: PropPatternV| pattern_le(a, b);
    let mut out: Vec<PropPattern> = Vec::new();
    proof {
        assert(out.deep_view().to_multiset().add(v.deep_view().to_multiset()) =~= orig);
    }
    while v.len() > 0
        invariant
            out.deep_view().to_multiset().add(v.deep_view().to_multiset()) == orig,
            vstd::relations::sorted_by(out.deep_view(), leq),
            leq == (|a: PropPatternV, b: PropPatternV| pattern_le(a, b)),
            forall|x: int, y: int|
                0 <= x < out.deep_view().len() && 0 <= y < v.deep_view().len() ==> pattern_le(
                    #[trigger] out.deep_view()[x],
                    #[trigger] v.deep_view()[y],
                ),
        decreases v.len(),
    {
        let mut m: usize = 0;
        let mut k: usize = 1;
        while k < v.len()
            invariant
                0 <= m < v.len(),
                1 <= k <= v.len(),
                v.deep_view().len() == v.len(),
                forall|j: int|
                    0 <= j < k ==> pattern_le(
                        v.deep_view()[m as int],
                        #[trigger] v.deep_view()[j],
                    ),
            decreases v.len() - k,
        {
            if pattern_le_exec(&v[k], &v[m]) {
                proof {
                    assert forall|j: int| 0 <= j < k + 1 implies pattern_le(
                        v.deep_view()[k as int],
                        #[trigger] v.deep_view()[j],
                    ) by {
                        if j < k {
                            lemma_pattern_le_transitive(
                                v.deep_view()[k as int],
                                v.deep_view()[m as int],
                                v.deep_view()[j],
                            );
                        }
                    }
                }
                m = k;
            } else {
                proof {
                    lemma_pattern_le_total(v.deep_view()[m as int], v.deep_view()[k as int]);
                }
            }
            k = k + 1;
        }
        let ghost dv_before = v.deep_view();
        let ghost out_before = out.deep_view();
        let x = v.remove(m);
        out.push(x);
        proof {
            assert(v.deep_view() =~= dv_before.remove(m as int));
            assert(out.deep_view() =~= out_before.push(dv_before[m as int]));
            assert(out.deep_view().to_multiset() =~= out_before.to_multiset().insert(
                dv_before[m as int],
            ));
            assert(v.deep_view().to_multiset() =~= dv_before.to_multiset().remove(
                dv_before[m as int],
            ));
            assert(dv_before.to_multiset().count(dv_before[m as int]) > 0);
            assert(out.deep_view().to_multiset().add(v.deep_view().to_multiset()) =~= orig);
            assert forall|x1: int, y1: int|
                0 <= x1 < y1 < out.deep_view().len() implies leq(
                out.deep_view()[x1],
                out.deep_view()[y1],
            ) by {
                if y1 == out.deep_view().len() - 1 {
                    assert(pattern_le(out_before[x1], dv_before[m as int]));
                }
            }
            assert(vstd::relations::sorted_by(out.deep_view(), leq));
            assert forall|x1: int, y1: int|
                0 <= x1 < out.deep_view().len() && 0 <= y1 < v.deep_view().len() implies pattern_le(
                #[trigger] out.deep_view()[x1],
                #[trigger] v.deep_view()[y1],
            ) by {
                let w = if y1 < m as int {
                    y1
                } else {
                    y1 + 1
                };
                assert(v.deep_view()[y1] == dv_before[w]);
                if x1 < out_before.len() {
                    assert(pattern_le(out_before[x1], dv_before[w]));
                } else {
                    assert(out.deep_view()[x1] == dv_before[m as int]);
                    assert(pattern_le(dv_before[m as int], dv_before[w]));
                }
            }
        }
    }
    proof {
        assert(v.deep_view().to_multiset() =~= Multiset::<PropPatternV>::empty());
        assert(out.deep_view().to_multiset() =~= orig);
    }
    *v = out;
}

/// The human-facing name of a group: a native identity, and an identity
/// exported as `default`, show the tag text of the group's first usage;
/// any other identity shows its export name's display form.
pub open spec fn display_name_spec(
    identity: ComponentIdentityV,
    usages: Seq<ComponentUsageV>,
) -> Seq<char> {
    if identity.source is Native {
        if usages.len() > 0 {
            crate::occurrence::reference_display_name(usages[0].occurrence.tag_name)
        } else {
            Seq::<char>::empty()
        }
    } else if crate::identity::export_display_name(identity.export_name) == "default"@
        && usages.len() > 0 {
        crate::occurrence::reference_display_name(usages[0].occurrence.tag_name)
    } else {
        crate::identity::export_display_name(identity.export_name)
    }
}

/// Derive the display name of a group.
pub fn compute_display_name(identity: &ComponentIdentity, usages: &Vec<ComponentUsage>) -> (r:
    String)
    ensures
        r@ == display_name_spec(identity@, usages.deep_view()),
{
    if matches!(identity.source, crate::identity::ComponentSource::Native) {
        if usages.len() > 0 {
            proof {
                assert(usages.deep_view()[0] == usages@[0].deep_view());
            }
            return usages[0].occurrence.tag_name.display_name();
        }
        return String::new();
    }
    let export_name = identity.display_name();
    if crate::text::str_eq(export_name.as_str(), "default") && usages.len() > 0 {
        proof {
            assert(usages.deep_view()[0] == usages@[0].deep_view());
        }
        return usages[0].occurrence.tag_name.display_name();
    }
    export_name
}

/// Clone a usage list, keeping its view.
fn clone_usages_vec(v: &Vec<ComponentUsage>) -> (r: Vec<ComponentUsage>)
    ensures
        r.deep_view() == v.deep_view(),
{
    let c = v.clone();
    proof {
        assert forall|i: int| 0 <= i < c.deep_view().len() implies c.deep_view()[i]
            == v.deep_view()[i] by {
            assert(cloned::<ComponentUsage>(v[i], c[i]));
        }
        assert(c.deep_view() =~= v.deep_view());
    }
    c
}

/// One aggregated group: its deterministic id, identity, display name, the
/// usages grouped under it, and their statistics.
#[derive(Debug)]
pub struct ComponentUsageAggregate {
    pub id: String,
    pub identity: ComponentIdentity,
    pub display_name: String,
    pub usages: Vec<ComponentUsage>,
    pub statistics: UsageStatistics,
}

pub ghost struct ComponentUsageAggregateV {
    pub id: Seq<char>,
    pub identity: ComponentIdentityV,
    pub display_name: Seq<char>,
    pub usages: Seq<ComponentUsageV>,
    pub statistics: UsageStatisticsV,
}

impl View for ComponentUsageAggregate {
    type V = ComponentUsageAggregateV;

    open spec fn view(&self) -> ComponentUsageAggregateV {
        ComponentUsageAggregateV {
            id: self.id@,
            identity: self.identity@,
            display_name: self.display_name@,
            usages: self.usages.deep_view(),
            statistics: self.statistics@,
        }
    }
}

impl DeepView for ComponentUsageAggregate {
    type V = ComponentUsageAggregateV;

    open spec fn deep_view(&self) -> ComponentUsageAggregateV {
        self.view()
    }
}

/// A group whose derived fields all agree with its identity and usages: the
/// id is the identity's deterministic id, the display name follows the
/// display rule, and the statistics count exactly the usages' observations.
pub open spec fn aggregate_consistent(g: ComponentUsageAggregateV) -> bool {
    &&& g.id == crate::identity::id_of(g.identity)
    &&& g.display_name == display_name_spec(g.identity, g.usages)
    &&& g.statistics.total_count == g.usages.len()
    &&& valid_prop_patterns(g.statistics.prop_patterns, usages_prop_multiset(g.usages))
}

impl ComponentUsageAggregate {
    /// Assemble one group from its identity and usages.
    pub fn new(identity: ComponentIdentity, usages: Vec<ComponentUsage>) -> (r: Self)
        ensures
            r@.identity == identity@,
            r@.usages == usages.deep_view(),
            aggregate_consistent(r@),
    {
        let id = identity.generate_id();
        let display_name = compute_display_name(&identity, &usages);
        let statistics = UsageStatistics::compute(&usages);
        ComponentUsageAggregate { id, identity, display_name, usages, statistics }
    }

    pub fn id(&self) -> (r: &str)
        ensures
            r@ == self@.id,
    {
        self.id.as_str()
    }

    pub fn identity(&self) -> (r: &ComponentIdentity)
        ensures
            r@ == self@.identity,
    {
        &self.identity
    }

    pub fn display_name(&self) -> (r: &str)
        ensures
            r@ == self@.display_name,
    {
        self.display_name.as_str()
    }

    pub fn usages(&self) -> (r: &Vec<ComponentUsage>)
        ensures
            r.deep_view() == self@.usages,
    {
        &self.usages
    }

    pub fn statistics(&self) -> (r: &UsageStatistics)
        ensures
            r@ == self@.statistics,
    {
        &self.statistics
    }

    /// Put the group's usages and statistics into their deterministic order:
    /// usages by file path and start offset, patterns by key, distributions
    /// by their entry order. Nothing is added or lost.
    pub fn sort_usages(&mut self)
        ensures
            final(self)@.id == old(self)@.id,
            final(self)@.identity == old(self)@.identity,
            final(self)@.display_name == old(self)@.display_name,
            final(self)@.usages.to_multiset() == old(self)@.usages.to_multiset(),
            vstd::relations::sorted_by(
                final(self)@.usages,
                |a: ComponentUsageV, b: ComponentUsageV| usage_le(a, b),
            ),
            final(self)@.statistics.total_count == old(self)@.statistics.total_count,
            patterns_content(final(self)@.statistics.prop_patterns) == patterns_content(
                old(self)@.statistics.prop_patterns,
            ),
            vstd::relations::sorted_by(
                final(self)@.statistics.prop_patterns,
                |a: PropPatternV, b: PropPatternV| pattern_le(a, b),
            ),
            forall|i: int|
                0 <= i < final(self)@.statistics.prop_patterns.len()
                    ==> vstd::relations::sorted_by(
                    (#[trigger] final(self)@.statistics.prop_patterns[i]).distribution,
                    |a: ValueDistributionV, b: ValueDistributionV| dist_le(a, b),
                ),
            valid_prop_patterns(
                old(self)@.statistics.prop_patterns,
                usages_prop_multiset(old(self)@.usages),
            ) ==> valid_prop_patterns(
                final(self)@.statistics.prop_patterns,
                usages_prop_multiset(final(self)@.usages),
            ),
    {
        let ghost usages_before = self@.usages;
        sort_usages_vec(&mut self.usages);
        self.statistics.sort_prop_patterns();
        proof {
            lemma_prop_multiset_permuted(usages_before, self@.usages);
        }
    }
}

/// The content of a pattern table, blind to the order of patterns and of
/// entries: the multiset of `(key, distribution multiset)` pairs.
pub open spec fn patterns_content(ps: Seq<PropPatternV>) -> Multiset<
    (Seq<char>, Multiset<ValueDistributionV>),
> {
    ps.map_values(|p: PropPatternV| (p.key, p.distribution.to_multiset())).to_multiset()
}

/// Mapping two sequences with equal multisets gives equal multisets.
proof fn lemma_map_to_multiset_permuted<A, B>(s1: Seq<A>, s2: Seq<A>, f: spec_fn(A) -> B)
    requires
        s1.to_multiset() == s2.to_multiset(),
    ensures
        s1.map_values(f).to_multiset() == s2.map_values(f).to_multiset(),
    decreases s1.len(),
{
    if s1.len() == 0 {
        assert(s1.to_multiset().len() == 0);
        assert(s2.len() == s2.to_multiset().len());
        assert(s1.map_values(f) =~= Seq::<B>::empty());
        assert(s2.map_values(f) =~= Seq::<B>::empty());
    } else {
        let x = s1.last();
        assert(s1.contains(x));
        assert(s1.to_multiset().count(x) > 0);
        assert(s2.to_multiset().count(x) > 0);
        assert(s2.contains(x));
        let j = choose|j: int| 0 <= j < s2.len() && s2[j] == x;
        let s1p = s1.drop_last();
        let s2p = s2.remove(j);
        assert(s1p =~= s1.remove(s1.len() - 1));
        assert(s1p.to_multiset() == s1.to_multiset().remove(x)) by {
            assert(s1.remove(s1.len() - 1).to_multiset() =~= s1.to_multiset().remove(
                s1[s1.len() - 1],
            ));
        }
        assert(s2p.to_multiset() =~= s2.to_multiset().remove(x));
        lemma_map_to_multiset_permuted(s1p, s2p, f);
        assert(s1.map_values(f) =~= s1p.map_values(f).push(f(x)));
        assert(s1.map_values(f).to_multiset() =~= s1p.map_values(f).to_multiset().insert(f(x)));
        assert(s2.map_values(f).remove(j) =~= s2p.map_values(f));
        assert(s2.map_values(f)[j] == f(x));
        assert(s2.map_values(f).remove(j).to_multiset() =~= s2.map_values(f).to_multiset().remove(
            f(x),
        ));
        assert(s2.map_values(f).to_multiset().count(f(x)) > 0) by {
            assert(s2.map_values(f).contains(f(x)));
        }
        assert(s1.map_values(f).to_multiset() =~= s2.map_values(f).to_multiset());
    }
}

impl UsageStatistics {
    /// Put the patterns and their distributions into deterministic order:
    /// patterns by key, each distribution by its entry order. The content is
    /// unchanged.
    pub fn sort_prop_patterns(&mut self)
        ensures
            final(self)@.total_count == old(self)@.total_count,
            patterns_content(final(self)@.prop_patterns) == patterns_content(
                old(self)@.prop_patterns,
            ),
            forall|m: Multiset<(Seq<char>, (Seq<char>, Option<Seq<char>>, Seq<char>))>|
                valid_prop_patterns(old(self)@.prop_patterns, m) ==> #[trigger] valid_prop_patterns(
                    final(self)@.prop_patterns,
                    m,
                ),
            vstd::relations::sorted_by(
                final(self)@.prop_patterns,
                |a: PropPatternV, b: PropPatternV| pattern_le(a, b),
            ),
            forall|i: int|
                0 <= i < final(self)@.prop_patterns.len() ==> vstd::relations::sorted_by(
                    (#[trigger] final(self)@.prop_patterns[i]).distribution,
                    |a: ValueDistributionV, b: ValueDistributionV| dist_le(a, b),
                ),
    {
        let ghost before = self@.prop_patterns;
        let mut rebuilt: Vec<PropPattern> = Vec::new();
        let mut i: usize = 0;
        while i < self.prop_patterns.len()
            invariant
                0 <= i <= self.prop_patterns.len(),
                before == self@.prop_patterns,
                self.prop_patterns.deep_view().len() == self.prop_patterns.len(),
                rebuilt.deep_view().len() == i,
                forall|k: int|
                    0 <= k < i ==> {
                        &&& (#[trigger] rebuilt.deep_view()[k]).key == before[k].key
                        &&& rebuilt.deep_view()[k].distribution.to_multiset()
                            == before[k].distribution.to_multiset()
                        &&& vstd::relations::sorted_by(
                            rebuilt.deep_view()[k].distribution,
                            |a: ValueDistributionV, b: ValueDistributionV| dist_le(a, b),
                        )
                    },
            decreases self.prop_patterns.len() - i,
        {
            let bucket = self.prop_patterns[i].clone();
            let mut dist = bucket.distribution;
            sort_distribution_vec(&mut dist);
            let ghost prev = rebuilt.deep_view();
            rebuilt.push(PropPattern { key: bucket.key, distribution: dist });
            proof {
                assert(self.prop_patterns.deep_view()[i as int]
                    == self.prop_patterns@[i as int].deep_view());
                assert(rebuilt.deep_view().len() == prev.len() + 1);
                assert forall|k: int| 0 <= k < prev.len() implies #[trigger] rebuilt.deep_view()[k]
                    == prev[k] by {}
            }
            i = i + 1;
        }
        self.prop_patterns = rebuilt;
        let ghost mid = self.prop_patterns.deep_view();
        sort_patterns_vec(&mut self.prop_patterns);
        proof {
            let f = |p: PropPatternV| (p.key, p.distribution.to_multiset());
            assert(before.map_values(f) =~= mid.map_values(f));
            lemma_map_to_multiset_permuted(self.prop_patterns.deep_view(), mid, f);
            assert forall|m: Multiset<(Seq<char>, (Seq<char>, Option<Seq<char>>, Seq<char>))>|
                valid_prop_patterns(before, m) implies #[trigger] valid_prop_patterns(
                self.prop_patterns.deep_view(),
                m,
            ) by {
                lemma_valid_patterns_same_content(before, self.prop_patterns.deep_view(), m);
            }
            let fin = self.prop_patterns.deep_view();
            assert forall|i2: int|
                0 <= i2 < fin.len() implies vstd::relations::sorted_by(
                (#[trigger] fin[i2]).distribution,
                |a: ValueDistributionV, b: ValueDistributionV| dist_le(a, b),
            ) by {
                assert(fin.contains(fin[i2]));
                assert(fin.to_multiset().count(fin[i2]) > 0);
                assert(mid.to_multiset().count(fin[i2]) > 0);
                assert(mid.contains(fin[i2]));
                let j = choose|j: int| 0 <= j < mid.len() && mid[j] == fin[i2];
                assert(vstd::relations::sorted_by(
                    mid[j].distribution,
                    |a: ValueDistributionV, b: ValueDistributionV| dist_le(a, b),
                ));
            }
        }
    }
}

/// The usages grouped under one identity: exactly those whose definition's
/// identity equals it, as a multiset.
pub open spec fn group_usages_spec(
    usages: Seq<ComponentUsageV>,
    id: ComponentIdentityV,
) -> Multiset<ComponentUsageV> {
    usages.to_multiset().filter(|u: ComponentUsageV| u.definition.identity == id)
}

proof fn lemma_group_insert(
    prefix: Multiset<ComponentUsageV>,
    u: ComponentUsageV,
    id: ComponentIdentityV,
)
    ensures
        u.definition.identity == id ==> prefix.insert(u).filter(
            |x: ComponentUsageV| x.definition.identity == id,
        ) =~= prefix.filter(|x: ComponentUsageV| x.definition.identity == id).insert(u),
        u.definition.identity != id ==> prefix.insert(u).filter(
            |x: ComponentUsageV| x.definition.identity == id,
        ) =~= prefix.filter(|x: ComponentUsageV| x.definition.identity == id),
{
}

struct GroupAcc {
    identity: ComponentIdentity,
    usages: Vec<ComponentUsage>,
}

ghost struct GroupAccV {
    identity: ComponentIdentityV,
    usages: Seq<ComponentUsageV>,
}

impl View for GroupAcc {
    type V = GroupAccV;

    closed spec fn view(&self) -> GroupAccV {
        GroupAccV { identity: self.identity@, usages: self.usages.deep_view() }
    }
}

impl DeepView for GroupAcc {
    type V = GroupAccV;

    closed spec fn deep_view(&self) -> GroupAccV {
        self.view()
    }
}

/// Group all usages by structural identity equality: one group per distinct
/// identity, holding exactly the usages whose identity equals the group's,
/// with consistent derived fields. Never grouped by tag text.
pub fn group_by_identity(usages: Vec<ComponentUsage>) -> (r: Vec<ComponentUsageAggregate>)
    ensures
        forall|g: int|
            0 <= g < r.deep_view().len() ==> {
                &&& aggregate_consistent(#[trigger] r.deep_view()[g])
                &&& r.deep_view()[g].usages.to_multiset() == group_usages_spec(
                    usages.deep_view(),
                    r.deep_view()[g].identity,
                )
                &&& r.deep_view()[g].usages.len() >= 1
            },
        forall|g1: int, g2: int|
            0 <= g1 < g2 < r.deep_view().len() ==> (#[trigger] r.deep_view()[g1]).identity != (
            #[trigger] r.deep_view()[g2]).identity,
        forall|k: int|
            #![trigger usages.deep_view()[k]]
            0 <= k < usages.deep_view().len() ==> exists|g: int|
                0 <= g < r.deep_view().len() && (#[trigger] r.deep_view()[g]).identity
                    == usages.deep_view()[k].definition.identity,
{
    let ghost us = usages.deep_view();
    let mut buckets: Vec<GroupAcc> = Vec::new();
    let mut i: usize = 0;
    proof {
        assert(us.subrange(0, 0) =~= Seq::<ComponentUsageV>::empty());
        assert(us.subrange(0, 0).to_multiset() =~= Multiset::<ComponentUsageV>::empty());
    }
    while i < usages.len()
        invariant
            0 <= i <= usages.len(),
            us == usages.deep_view(),
            us.len() == usages.len(),
            buckets.deep_view().len() == buckets.len(),
            forall|b: int|
                0 <= b < buckets.deep_view().len() ==> {
                    &&& (#[trigger] buckets.deep_view()[b]).usages.to_multiset()
                        == group_usages_spec(
                        us.subrange(0, i as int),
                        buckets.deep_view()[b].identity,
                    )
                    &&& buckets.deep_view()[b].usages.len() >= 1
                },
            forall|b1: int, b2: int|
                0 <= b1 < b2 < buckets.deep_view().len() ==> (#[trigger] buckets.deep_view()[b1]).identity
                    != (#[trigger] buckets.deep_view()[b2]).identity,
            forall|k: int|
                #![trigger us[k]]
                0 <= k < i ==> exists|b: int|
                    0 <= b < buckets.deep_view().len() && (#[trigger] buckets.deep_view()[b]).identity
                        == us[k].definition.identity,
        decreases usages.len() - i,
    {
        let u = usages[i].clone();
        let ghost uv = us[i as int];
        proof {
            assert(u@ == usages@[i as int].deep_view());
            assert(u@ == uv);
            assert(us.subrange(0, i + 1) =~= us.subrange(0, i as int).push(uv));
            assert(us.subrange(0, i + 1).to_multiset() =~= us.subrange(
                0,
                i as int,
            ).to_multiset().insert(uv));
        }
        let ghost prefix = us.subrange(0, i as int);
        let ghost prefix2 = us.subrange(0, i + 1);
        // find this identity's bucket
        let mut bi: usize = 0;
        let mut found = false;
        while bi < buckets.len() && !found
            invariant
                0 <= bi <= buckets.len(),
                buckets.deep_view().len() == buckets.len(),
                u@ == uv,
                !found ==> forall|b: int|
                    0 <= b < bi ==> (#[trigger] buckets.deep_view()[b]).identity
                        != uv.definition.identity,
                found ==> bi < buckets.len() && buckets.deep_view()[bi as int].identity
                    == uv.definition.identity,
            decreases buckets.len() - bi, (if found { 0int } else { 1int }),
        {
            proof {
                assert(buckets.deep_view()[bi as int] == buckets@[bi as int].deep_view());
            }
            if crate::identity::identity_eq(&buckets[bi].identity, &u.definition.identity) {
                found = true;
            } else {
                bi = bi + 1;
            }
        }
        let ghost old_buckets = buckets.deep_view();
        if found {
            let mut new_usages = clone_usages_vec(&buckets[bi].usages);
            new_usages.push(u);
            let new_bucket = GroupAcc {
                identity: buckets[bi].identity.clone(),
                usages: new_usages,
            };
            let ghost nb = new_bucket@;
            buckets.set(bi, new_bucket);
            proof {
                assert(buckets.deep_view()[bi as int] == nb);
                assert(nb.identity == old_buckets[bi as int].identity);
                assert(nb.usages =~= old_buckets[bi as int].usages.push(uv));
                assert(nb.usages.to_multiset() =~= old_buckets[bi as int].usages.to_multiset().insert(uv));
                assert forall|b: int|
                    0 <= b < buckets.deep_view().len() && b != bi as int
                        implies #[trigger] buckets.deep_view()[b] == old_buckets[b] by {}
                assert forall|b: int| 0 <= b < buckets.deep_view().len() implies {
                    &&& (#[trigger] buckets.deep_view()[b]).usages.to_multiset()
                        == group_usages_spec(prefix2, buckets.deep_view()[b].identity)
                    &&& buckets.deep_view()[b].usages.len() >= 1
                } by {
                    lemma_group_insert(
                        prefix.to_multiset(),
                        uv,
                        buckets.deep_view()[b].identity,
                    );
                    if b == bi as int {
                        assert(uv.definition.identity == nb.identity);
                    } else {
                        assert(buckets.deep_view()[b].identity != nb.identity);
                        assert(uv.definition.identity != buckets.deep_view()[b].identity);
                    }
                }
                assert forall|k: int|
                    #![trigger us[k]]
                    0 <= k < i + 1 implies exists|b: int|
                    0 <= b < buckets.deep_view().len()
                        && (#[trigger] buckets.deep_view()[b]).identity
                        == us[k].definition.identity by {
                    if k < i {
                        let b = choose|b: int|
                            0 <= b < old_buckets.len() && (#[trigger] old_buckets[b]).identity
                                == us[k].definition.identity;
                        assert(buckets.deep_view()[b].identity == us[k].definition.identity);
                    } else {
                        assert(buckets.deep_view()[bi as int].identity
                            == us[k].definition.identity);
                    }
                }
            }
        } else {
            let mut new_usages: Vec<ComponentUsage> = Vec::new();
            new_usages.push(u);
            let new_bucket = GroupAcc { identity: usages[i].definition.identity.clone(), usages: new_usages };
            let ghost nb = new_bucket@;
            buckets.push(new_bucket);
            proof {
                assert(buckets.deep_view().len() == old_buckets.len() + 1);
                assert(buckets.deep_view()[old_buckets.len() as int] == nb);
                assert(nb.identity == uv.definition.identity);
                assert(nb.usages =~= Seq::<ComponentUsageV>::empty().push(uv));
                assert forall|b: int| 0 <= b < old_buckets.len() implies #[trigger] buckets.deep_view()[b]
                    == old_buckets[b] by {}
                assert forall|v: ComponentUsageV|
                    v.definition.identity == uv.definition.identity implies prefix.to_multiset().count(
                    v,
                ) == 0 by {
                    if prefix.to_multiset().count(v) > 0 {
                        assert(prefix.contains(v));
                        let k = choose|k: int| 0 <= k < prefix.len() && prefix[k] == v;
                        assert(us[k].definition.identity == uv.definition.identity);
                        let b = choose|b: int|
                            0 <= b < old_buckets.len() && (#[trigger] old_buckets[b]).identity
                                == us[k].definition.identity;
                        assert(false);
                    }
                }
                assert forall|b: int| 0 <= b < buckets.deep_view().len() implies {
                    &&& (#[trigger] buckets.deep_view()[b]).usages.to_multiset()
                        == group_usages_spec(prefix2, buckets.deep_view()[b].identity)
                    &&& buckets.deep_view()[b].usages.len() >= 1
                } by {
                    lemma_group_insert(
                        prefix.to_multiset(),
                        uv,
                        buckets.deep_view()[b].identity,
                    );
                    if b == old_buckets.len() as int {
                        assert(nb.usages.to_multiset() =~= Multiset::<
                            ComponentUsageV,
                        >::empty().insert(uv));
                        assert forall|v: ComponentUsageV|
                            nb.usages.to_multiset().count(v) == group_usages_spec(
                            prefix2,
                            nb.identity,
                        ).count(v) by {
                            if v.definition.identity == nb.identity {
                                assert(prefix.to_multiset().count(v) == 0);
                            }
                        }
                        assert(nb.usages.to_multiset() =~= group_usages_spec(
                            prefix2,
                            nb.identity,
                        ));
                    } else {
                        assert(buckets.deep_view()[b].identity != uv.definition.identity);
                    }
                }
                assert forall|k: int|
                    #![trigger us[k]]
                    0 <= k < i + 1 implies exists|b: int|
                    0 <= b < buckets.deep_view().len()
                        && (#[trigger] buckets.deep_view()[b]).identity
                        == us[k].definition.identity by {
                    if k < i {
                        let b = choose|b: int|
                            0 <= b < old_buckets.len() && (#[trigger] old_buckets[b]).identity
                                == us[k].definition.identity;
                        assert(buckets.deep_view()[b].identity == us[k].definition.identity);
                    } else {
                        assert(buckets.deep_view()[old_buckets.len() as int].identity
                            == us[k].definition.identity);
                    }
                }
            }
        }
        i = i + 1;
    }
    proof {
        assert(us.subrange(0, usages.len() as int) =~= us);
    }
    // build the aggregates
    let mut out: Vec<ComponentUsageAggregate> = Vec::new();
    let mut g: usize = 0;
    while g < buckets.len()
        invariant
            0 <= g <= buckets.len(),
            us == usages.deep_view(),
            buckets.deep_view().len() == buckets.len(),
            out.deep_view().len() == g,
            forall|b: int|
                0 <= b < buckets.deep_view().len() ==> {
                    &&& (#[trigger] buckets.deep_view()[b]).usages.to_multiset()
                        == group_usages_spec(us, buckets.deep_view()[b].identity)
                    &&& buckets.deep_view()[b].usages.len() >= 1
                },
            forall|b1: int, b2: int|
                0 <= b1 < b2 < buckets.deep_view().len() ==> (#[trigger] buckets.deep_view()[b1]).identity
                    != (#[trigger] buckets.deep_view()[b2]).identity,
            forall|k: int|
                #![trigger us[k]]
                0 <= k < us.len() ==> exists|b: int|
                    0 <= b < buckets.deep_view().len() && (#[trigger] buckets.deep_view()[b]).identity
                        == us[k].definition.identity,
            forall|b: int|
                0 <= b < g ==> {
                    &&& aggregate_consistent(#[trigger] out.deep_view()[b])
                    &&& out.deep_view()[b].identity == buckets.deep_view()[b].identity
                    &&& out.deep_view()[b].usages == buckets.deep_view()[b].usages
                },
        decreases buckets.len() - g,
    {
        let identity = buckets[g].identity.clone();
        let group_usages = clone_usages_vec(&buckets[g].usages);
        let ghost prev = out.deep_view();
        let agg = ComponentUsageAggregate::new(identity, group_usages);
        out.push(agg);
        proof {
            assert(buckets.deep_view()[g as int] == buckets@[g as int].deep_view());
            assert(out.deep_view().len() == prev.len() + 1);
            assert forall|b: int| 0 <= b < prev.len() implies #[trigger] out.deep_view()[b]
                == prev[b] by {}
        }
        g = g + 1;
    }
    proof {
        assert forall|k: int|
            #![trigger us[k]]
            0 <= k < us.len() implies exists|g2: int|
            0 <= g2 < out.deep_view().len() && (#[trigger] out.deep_view()[g2]).identity
                == us[k].definition.identity by {
            let b = choose|b: int|
                0 <= b < buckets.deep_view().len() && (#[trigger] buckets.deep_view()[b]).identity
                    == us[k].definition.identity;
            assert(out.deep_view()[b].identity == us[k].definition.identity);
        }
    }
    out
}

/// Grouping is insertion-order-independent: two inputs equal as multisets
/// group, for every identity, exactly the same multiset of usages.
pub proof fn lemma_grouping_order_independent(
    input1: Seq<ComponentUsageV>,
    input2: Seq<ComponentUsageV>,
    id: ComponentIdentityV,
)
    requires
        input1.to_multiset() == input2.to_multiset(),
    ensures
        group_usages_spec(input1, id) == group_usages_spec(input2, id),
{
}

/// Every two usages of one native tag land in the group of that tag's
/// identity: both are counted in the usages grouped under it.
pub proof fn lemma_native_usages_share_group(input: Seq<ComponentUsageV>, i: int, j: int, tag: Seq<char>)
    requires
        0 <= i < input.len(),
        0 <= j < input.len(),
        input[i].definition.identity == crate::identity::native_identity(tag),
        input[j].definition.identity == crate::identity::native_identity(tag),
    ensures
        group_usages_spec(input, crate::identity::native_identity(tag)).count(input[i]) > 0,
        group_usages_spec(input, crate::identity::native_identity(tag)).count(input[j]) > 0,
{
    assert(input.contains(input[i]));
    assert(input.contains(input[j]));
    assert(input.to_multiset().count(input[i]) > 0);
    assert(input.to_multiset().count(input[j]) > 0);
}

/// One distribution entry as it appears in the report.
#[derive(Debug)]
pub struct SerializablePropDistribution {
    pub value: Option<String>,
    pub raw: String,
    pub prop_type: String,
    pub count: u32,
}

pub ghost struct SerializablePropDistributionV {
    pub value: Option<Seq<char>>,
    pub raw: Seq<char>,
    pub prop_type: Seq<char>,
    pub count: u32,
}

impl View for SerializablePropDistribution {
    type V = SerializablePropDistributionV;

    open spec fn view(&self) -> SerializablePropDistributionV {
        SerializablePropDistributionV {
            value: self.value.deep_view(),
            raw: self.raw@,
            prop_type: self.prop_type@,
            count: self.count,
        }
    }
}

impl DeepView for SerializablePropDistribution {
    type V = SerializablePropDistributionV;

    open spec fn deep_view(&self) -> SerializablePropDistributionV {
        self.view()
    }
}

/// The report form of one distribution entry; the count is clipped to the
/// report's 32-bit field.
pub open spec fn serializable_dist_of(d: ValueDistributionV) -> SerializablePropDistributionV {
    SerializablePropDistributionV {
        value: d.value,
        raw: d.raw,
        prop_type: d.value_pattern,
        count: d.count as u32,
    }
}

impl ValueDistribution {
    /// The report form of this entry.
    pub fn to_serializable(&self) -> (r: SerializablePropDistribution)
        ensures
            r@ == serializable_dist_of(self@),
    {
        SerializablePropDistribution {
            value: match &self.value {
                Some(v) => Some(v.clone()),
                None => None,
            },
            raw: self.raw.clone(),
            prop_type: self.value_pattern.clone(),
            count: #[verifier::truncate] (self.count as u32),
        }
    }
}

/// One prop key's distribution as it appears in the report.
#[derive(Debug)]
pub struct SerializablePropUsage {
    pub key: String,
    pub distribution: Vec<SerializablePropDistribution>,
}

pub ghost struct SerializablePropUsageV {
    pub key: Seq<char>,
    pub distribution: Seq<SerializablePropDistributionV>,
}

impl View for SerializablePropUsage {
    type V = SerializablePropUsageV;

    open spec fn view(&self) -> SerializablePropUsageV {
        SerializablePropUsageV { key: self.key@, distribution: self.distribution.deep_view() }
    }
}

impl DeepView for SerializablePropUsage {
    type V = SerializablePropUsageV;

    open spec fn deep_view(&self) -> SerializablePropUsageV {
        self.view()
    }
}

/// The report form of one pattern.
pub open spec fn serializable_pattern_of(p: PropPatternV) -> SerializablePropUsageV {
    SerializablePropUsageV {
        key: p.key,
        distribution: p.distribution.map_values(|d: ValueDistributionV| serializable_dist_of(d)),
    }
}

impl PropPattern {
    /// The report form of this pattern.
    pub fn to_serializable(&self) -> (r: SerializablePropUsage)
        ensures
            r@ == serializable_pattern_of(self@),
    {
        let mut distribution: Vec<SerializablePropDistribution> = Vec::new();
        let mut i: usize = 0;
        proof {
            assert(distribution.deep_view() =~= self.distribution.deep_view().subrange(
                0,
                0,
            ).map_values(|d: ValueDistributionV| serializable_dist_of(d)));
        }
        while i < self.distribution.len()
            invariant
                0 <= i <= self.distribution.len(),
                self.distribution.deep_view().len() == self.distribution.len(),
                distribution.deep_view() == self.distribution.deep_view().subrange(
                    0,
                    i as int,
                ).map_values(|d: ValueDistributionV| serializable_dist_of(d)),
            decreases self.distribution.len() - i,
        {
            let ghost prev = distribution.deep_view();
            distribution.push(self.distribution[i].to_serializable());
            proof {
                assert(distribution.deep_view() =~= prev.push(
                    serializable_dist_of(self.distribution.deep_view()[i as int]),
                ));
                assert(self.distribution.deep_view().subrange(0, i + 1)
                    =~= self.distribution.deep_view().subrange(0, i as int).push(
                    self.distribution.deep_view()[i as int],
                ));
                assert(distribution.deep_view() =~= self.distribution.deep_view().subrange(
                    0,
                    i + 1,
                ).map_values(|d: ValueDistributionV| serializable_dist_of(d)));
            }
            i = i + 1;
        }
        proof {
            assert(self.distribution.deep_view().subrange(0, self.distribution.len() as int)
                =~= self.distribution.deep_view());
        }
        SerializablePropUsage { key: self.key.clone(), distribution }
    }
}

/// One group as it appears in the report.
#[derive(Debug)]
pub struct SerializableComponentGroup {
    pub id: String,
    pub name: String,
    pub identity: ComponentIdentity,
    pub instances: Vec<crate::usage::SerializableComponentUsage>,
    pub props_usages: Vec<SerializablePropUsage>,
}

pub ghost struct SerializableComponentGroupV {
    pub id: Seq<char>,
    pub name: Seq<char>,
    pub identity: ComponentIdentityV,
    pub instances: Seq<crate::usage::SerializableComponentUsageV>,
    pub props_usages: Seq<SerializablePropUsageV>,
}

impl View for SerializableComponentGroup {
    type V = SerializableComponentGroupV;

    open spec fn view(&self) -> SerializableComponentGroupV {
        SerializableComponentGroupV {
            id: self.id@,
            name: self.name@,
            identity: self.identity@,
            instances: self.instances.deep_view(),
            props_usages: self.props_usages.deep_view(),
        }
    }
}

/// The report form of one group.
pub open spec fn serializable_group_of(g: ComponentUsageAggregateV) -> SerializableComponentGroupV {
    SerializableComponentGroupV {
        id: g.id,
        name: g.display_name,
        identity: g.identity,
        instances: g.usages.map_values(
            |u: ComponentUsageV| crate::usage::serializable_usage_of(u),
        ),
        props_usages: g.statistics.prop_patterns.map_values(
            |p: PropPatternV| serializable_pattern_of(p),
        ),
    }
}

impl ComponentUsageAggregate {
    /// The report form of this group.
    pub fn to_serializable(&self) -> (r: SerializableComponentGroup)
        ensures
            r@ == serializable_group_of(self@),
    {
        let mut instances: Vec<crate::usage::SerializableComponentUsage> = Vec::new();
        let mut i: usize = 0;
        proof {
            assert(instances.deep_view() =~= self.usages.deep_view().subrange(0, 0).map_values(
                |u: ComponentUsageV| crate::usage::serializable_usage_of(u),
            ));
        }
        while i < self.usages.len()
            invariant
                0 <= i <= self.usages.len(),
                self.usages.deep_view().len() == self.usages.len(),
                instances.deep_view() == self.usages.deep_view().subrange(0, i as int).map_values(
                    |u: ComponentUsageV| crate::usage::serializable_usage_of(u),
                ),
            decreases self.usages.len() - i,
        {
            let ghost prev = instances.deep_view();
            instances.push(self.usages[i].to_serializable());
            proof {
                assert(instances.deep_view() =~= prev.push(
                    crate::usage::serializable_usage_of(self.usages.deep_view()[i as int]),
                ));
                assert(self.usages.deep_view().subrange(0, i + 1)
                    =~= self.usages.deep_view().subrange(0, i as int).push(
                    self.usages.deep_view()[i as int],
                ));
                assert(instances.deep_view() =~= self.usages.deep_view().subrange(
                    0,
                    i + 1,
                ).map_values(|u: ComponentUsageV| crate::usage::serializable_usage_of(u)));
            }
            i = i + 1;
        }
        proof {
            assert(self.usages.deep_view().subrange(0, self.usages.len() as int)
                =~= self.usages.deep_view());
        }
        let mut props_usages: Vec<SerializablePropUsage> = Vec::new();
        let mut k: usize = 0;
        proof {
            assert(props_usages.deep_view() =~= self.statistics.prop_patterns.deep_view().subrange(
                0,
                0,
            ).map_values(|p: PropPatternV| serializable_pattern_of(p)));
        }
        while k < self.statistics.prop_patterns.len()
            invariant
                0 <= k <= self.statistics.prop_patterns.len(),
                self.statistics.prop_patterns.deep_view().len()
                    == self.statistics.prop_patterns.len(),
                props_usages.deep_view() == self.statistics.prop_patterns.deep_view().subrange(
                    0,
                    k as int,
                ).map_values(|p: PropPatternV| serializable_pattern_of(p)),
            decreases self.statistics.prop_patterns.len() - k,
        {
            let ghost prev = props_usages.deep_view();
            props_usages.push(self.statistics.prop_patterns[k].to_serializable());
            proof {
                assert(props_usages.deep_view() =~= prev.push(
                    serializable_pattern_of(
                        self.statistics.prop_patterns.deep_view()[k as int],
                    ),
                ));
                assert(self.statistics.prop_patterns.deep_view().subrange(0, k + 1)
                    =~= self.statistics.prop_patterns.deep_view().subrange(0, k as int).push(
                    self.statistics.prop_patterns.deep_view()[k as int],
                ));
                assert(props_usages.deep_view()
                    =~= self.statistics.prop_patterns.deep_view().subrange(0, k + 1).map_values(
                    |p: PropPatternV| serializable_pattern_of(p),
                ));
            }
            k = k + 1;
        }
        proof {
            assert(self.statistics.prop_patterns.deep_view().subrange(
                0,
                self.statistics.prop_patterns.len() as int,
            ) =~= self.statistics.prop_patterns.deep_view());
        }
        SerializableComponentGroup {
            id: self.id.clone(),
            name: self.display_name.clone(),
            identity: self.identity.clone(),
            instances,
            props_usages,
        }
    }
}

/// What one usage contributes to the observation multiset.
pub open spec fn usage_prop_contrib(u: ComponentUsageV) -> Multiset<
    (Seq<char>, (Seq<char>, Option<Seq<char>>, Seq<char>)),
> {
    u.simplified_props.map_values(|p: SimplifiedPropV| prop_pair(p)).to_multiset()
}

proof fn lemma_prop_multiset_split_last(u: Seq<ComponentUsageV>)
    requires
        u.len() > 0,
    ensures
        usages_prop_multiset(u) == usages_prop_multiset(u.drop_last()).add(
            usage_prop_contrib(u.last()),
        ),
{
    let f = |p: SimplifiedPropV| prop_pair(p);
    assert(all_props_spec(u) == all_props_spec(u.drop_last()) + u.last().simplified_props);
    assert(all_props_spec(u).map_values(f) =~= all_props_spec(u.drop_last()).map_values(f)
        + u.last().simplified_props.map_values(f));
    vstd::seq_lib::lemma_multiset_commutative(
        all_props_spec(u.drop_last()).map_values(f),
        u.last().simplified_props.map_values(f),
    );
}

proof fn lemma_prop_multiset_remove(u: Seq<ComponentUsageV>, j: int)
    requires
        0 <= j < u.len(),
    ensures
        usages_prop_multiset(u) == usages_prop_multiset(u.remove(j)).add(usage_prop_contrib(u[j])),
    decreases u.len(),
{
    lemma_prop_multiset_split_last(u);
    if j == u.len() - 1 {
        assert(u.remove(j) =~= u.drop_last());
    } else {
        let x = u.last();
        let up = u.drop_last();
        lemma_prop_multiset_remove(up, j);
        let uj = u.remove(j);
        assert(uj.last() == x);
        assert(uj.drop_last() =~= up.remove(j));
        lemma_prop_multiset_split_last(uj);
        assert(usages_prop_multiset(u) =~= usages_prop_multiset(u.remove(j)).add(
            usage_prop_contrib(u[j]),
        ));
    }
}

/// Two usage lists that hold the same usages observe the same prop pairs,
/// however they are ordered.
pub proof fn lemma_prop_multiset_permuted(u1: Seq<ComponentUsageV>, u2: Seq<ComponentUsageV>)
    requires
        u1.to_multiset() == u2.to_multiset(),
    ensures
        usages_prop_multiset(u1) == usages_prop_multiset(u2),
    decreases u1.len(),
{
    if u1.len() == 0 {
        assert(u1.len() == u1.to_multiset().len());
        assert(u2.len() == u2.to_multiset().len());
        assert(all_props_spec(u1).map_values(|p: SimplifiedPropV| prop_pair(p)) =~= Seq::<
            (Seq<char>, (Seq<char>, Option<Seq<char>>, Seq<char>)),
        >::empty());
        assert(all_props_spec(u2).map_values(|p: SimplifiedPropV| prop_pair(p)) =~= Seq::<
            (Seq<char>, (Seq<char>, Option<Seq<char>>, Seq<char>)),
        >::empty());
        assert(usages_prop_multiset(u1) =~= usages_prop_multiset(u2));
    } else {
        let x = u1.last();
        assert(u1.contains(x));
        assert(u1.to_multiset().count(x) > 0);
        assert(u2.to_multiset().count(x) > 0);
        assert(u2.contains(x));
        let j = choose|j: int| 0 <= j < u2.len() && u2[j] == x;
        let u1p = u1.drop_last();
        let u2p = u2.remove(j);
        assert(u1p =~= u1.remove(u1.len() - 1));
        assert(u1.remove(u1.len() - 1).to_multiset() =~= u1.to_multiset().remove(x));
        assert(u2p.to_multiset() =~= u2.to_multiset().remove(x));
        lemma_prop_multiset_permuted(u1p, u2p);
        lemma_prop_multiset_split_last(u1);
        lemma_prop_multiset_remove(u2, j);
        assert(usages_prop_multiset(u1) =~= usages_prop_multiset(u2));
    }
}

proof fn lemma_two_indexes_of_count_two<A>(s: Seq<A>, x: A)
    requires
        s.to_multiset().count(x) >= 2,
    ensures
        exists|i: int, j: int| 0 <= i < j < s.len() && s[i] == x && s[j] == x,
{
    assert(s.to_multiset().count(x) > 0);
    assert(s.contains(x));
    let i1 = choose|i: int| 0 <= i < s.len() && s[i] == x;
    let sp = s.remove(i1);
    assert(sp.to_multiset() =~= s.to_multiset().remove(x));
    assert(sp.to_multiset().count(x) >= 1);
    assert(sp.contains(x));
    let k = choose|k: int| 0 <= k < sp.len() && sp[k] == x;
    let j1: int = if k < i1 {
        k
    } else {
        k + 1
    };
    assert(s[j1] == x);
    assert(j1 != i1);
    if i1 < j1 {
        assert(0 <= i1 < j1 < s.len() && s[i1] == x && s[j1] == x);
    } else {
        assert(0 <= j1 < i1 < s.len() && s[j1] == x && s[i1] == x);
    }
}

/// A pattern table stays correct for the same observations when its content,
/// blind to order, is unchanged.
pub proof fn lemma_valid_patterns_same_content(
    ps1: Seq<PropPatternV>,
    ps2: Seq<PropPatternV>,
    m: Multiset<(Seq<char>, (Seq<char>, Option<Seq<char>>, Seq<char>))>,
)
    requires
        valid_prop_patterns(ps1, m),
        patterns_content(ps2) == patterns_content(ps1),
    ensures
        valid_prop_patterns(ps2, m),
{
    let f = |p: PropPatternV| (p.key, p.distribution.to_multiset());
    // every table row of ps2 has a row of ps1 with the same key and the same
    // distribution multiset
    assert forall|i: int| #![trigger ps2[i]] 0 <= i < ps2.len() implies exists|i1: int|
        0 <= i1 < ps1.len() && (#[trigger] ps1[i1]).key == ps2[i].key
            && ps1[i1].distribution.to_multiset() == ps2[i].distribution.to_multiset() by {
        assert(ps2.map_values(f)[i] == f(ps2[i]));
        assert(ps2.map_values(f).contains(f(ps2[i])));
        assert(ps2.map_values(f).to_multiset().count(f(ps2[i])) > 0);
        assert(ps1.map_values(f).to_multiset().count(f(ps2[i])) > 0);
        assert(ps1.map_values(f).contains(f(ps2[i])));
        let i1 = choose|i1: int| 0 <= i1 < ps1.len() && ps1.map_values(f)[i1] == f(ps2[i]);
        assert(f(ps1[i1]) == f(ps2[i]));
        assert(ps1[i1].key == ps2[i].key);
    }
    // keys distinct: two ps2 rows with one key would force two ps1 rows with
    // one key
    assert forall|i: int, j: int| 0 <= i < j < ps2.len() implies (#[trigger] ps2[i]).key != (
    #[trigger] ps2[j]).key by {
        if ps2[i].key == ps2[j].key {
            let i1 = choose|i1: int|
                0 <= i1 < ps1.len() && (#[trigger] ps1[i1]).key == ps2[i].key
                    && ps1[i1].distribution.to_multiset() == ps2[i].distribution.to_multiset();
            let j1 = choose|j1: int|
                0 <= j1 < ps1.len() && (#[trigger] ps1[j1]).key == ps2[j].key
                    && ps1[j1].distribution.to_multiset() == ps2[j].distribution.to_multiset();
            assert(i1 == j1);
            assert(f(ps2[i]) == f(ps2[j]));
            assert(ps2.map_values(f)[i] == f(ps2[i]));
            assert(ps2.map_values(f)[j] == f(ps2[j]));
            lemma_two_indexes_of_count_two_pairs(ps2.map_values(f), f(ps2[i]), i, j);
            assert(ps2.map_values(f).to_multiset().count(f(ps2[i])) >= 2);
            assert(ps1.map_values(f).to_multiset().count(f(ps2[i])) >= 2);
            lemma_two_indexes_of_count_two(ps1.map_values(f), f(ps2[i]));
            let (a, b) = choose|a: int, b: int|
                0 <= a < b < ps1.map_values(f).len() && ps1.map_values(f)[a] == f(ps2[i])
                    && ps1.map_values(f)[b] == f(ps2[i]);
            assert(ps1[a].key == ps1[b].key);
            assert(false);
        }
    }
    // row contents carry over entry by entry
    assert forall|i: int| 0 <= i < ps2.len() implies (#[trigger] ps2[i]).distribution.len()
        >= 1 by {
        let i1 = choose|i1: int|
            0 <= i1 < ps1.len() && (#[trigger] ps1[i1]).key == ps2[i].key
                && ps1[i1].distribution.to_multiset() == ps2[i].distribution.to_multiset();
        assert(ps1[i1].distribution.len() == ps1[i1].distribution.to_multiset().len());
        assert(ps2[i].distribution.len() == ps2[i].distribution.to_multiset().len());
    }
    assert forall|i: int, j: int|
        0 <= i < ps2.len() && 0 <= j < ps2[i].distribution.len() implies {
        &&& (#[trigger] ps2[i].distribution[j]).count == m.count(
            (ps2[i].key, dist_triple(ps2[i].distribution[j])),
        )
        &&& ps2[i].distribution[j].count >= 1
    } by {
        let i1 = choose|i1: int|
            0 <= i1 < ps1.len() && (#[trigger] ps1[i1]).key == ps2[i].key
                && ps1[i1].distribution.to_multiset() == ps2[i].distribution.to_multiset();
        assert(ps2[i].distribution.contains(ps2[i].distribution[j]));
        assert(ps2[i].distribution.to_multiset().count(ps2[i].distribution[j]) > 0);
        assert(ps1[i1].distribution.to_multiset().count(ps2[i].distribution[j]) > 0);
        assert(ps1[i1].distribution.contains(ps2[i].distribution[j]));
        let j1 = choose|j1: int|
            0 <= j1 < ps1[i1].distribution.len() && ps1[i1].distribution[j1] == ps2[
                i
            ].distribution[j];
    }
    assert forall|i: int, j: int, k: int|
        0 <= i < ps2.len() && 0 <= j < k < ps2[i].distribution.len() implies dist_triple(
        #[trigger] ps2[i].distribution[j],
    ) != dist_triple(#[trigger] ps2[i].distribution[k]) by {
        if dist_triple(ps2[i].distribution[j]) == dist_triple(ps2[i].distribution[k]) {
            let i1 = choose|i1: int|
                0 <= i1 < ps1.len() && (#[trigger] ps1[i1]).key == ps2[i].key
                    && ps1[i1].distribution.to_multiset() == ps2[i].distribution.to_multiset();
            // equal triples force equal counts, so the two entries are one
            // record twice
            assert(ps2[i].distribution.contains(ps2[i].distribution[j]));
            assert(ps2[i].distribution.to_multiset().count(ps2[i].distribution[j]) > 0);
            assert(ps1[i1].distribution.to_multiset().count(ps2[i].distribution[j]) > 0);
            assert(ps1[i1].distribution.contains(ps2[i].distribution[j]));
            let a = choose|a: int|
                0 <= a < ps1[i1].distribution.len() && ps1[i1].distribution[a] == ps2[
                    i
                ].distribution[j];
            assert(ps2[i].distribution.contains(ps2[i].distribution[k]));
            assert(ps2[i].distribution.to_multiset().count(ps2[i].distribution[k]) > 0);
            assert(ps1[i1].distribution.to_multiset().count(ps2[i].distribution[k]) > 0);
            assert(ps1[i1].distribution.contains(ps2[i].distribution[k]));
            let b = choose|b: int|
                0 <= b < ps1[i1].distribution.len() && ps1[i1].distribution[b] == ps2[
                    i
                ].distribution[k];
            if a != b {
                assert(dist_triple(ps1[i1].distribution[a]) != dist_triple(
                    ps1[i1].distribution[b],
                ));
                assert(false);
            } else {
                assert(ps2[i].distribution[j] == ps2[i].distribution[k]);
                lemma_two_indexes_of_count_two_dist(ps2[i].distribution, ps2[i].distribution[j], j, k);
                assert(ps2[i].distribution.to_multiset().count(ps2[i].distribution[j]) >= 2);
                assert(ps1[i1].distribution.to_multiset().count(ps2[i].distribution[j]) >= 2);
                lemma_two_indexes_of_count_two(ps1[i1].distribution, ps2[i].distribution[j]);
                let (c, d) = choose|c: int, d: int|
                    0 <= c < d < ps1[i1].distribution.len() && ps1[i1].distribution[c] == ps2[
                        i
                    ].distribution[j] && ps1[i1].distribution[d] == ps2[i].distribution[j];
                assert(dist_triple(ps1[i1].distribution[c]) != dist_triple(
                    ps1[i1].distribution[d],
                ));
                assert(false);
            }
        }
    }
    // completeness: every observation still has its row and entry
    assert forall|q: (Seq<char>, (Seq<char>, Option<Seq<char>>, Seq<char>))|
        #[trigger] m.count(q) > 0 implies exists|i: int, j: int|
        0 <= i < ps2.len() && 0 <= j < ps2[i].distribution.len() && ps2[i].key == q.0
            && dist_triple(#[trigger] ps2[i].distribution[j]) == q.1 by {
        let (i1, j1) = choose|i1: int, j1: int|
            0 <= i1 < ps1.len() && 0 <= j1 < ps1[i1].distribution.len() && ps1[i1].key == q.0
                && dist_triple(#[trigger] ps1[i1].distribution[j1]) == q.1;
        assert(ps1.map_values(f)[i1] == f(ps1[i1]));
        assert(ps1.map_values(f).contains(f(ps1[i1])));
        assert(ps1.map_values(f).to_multiset().count(f(ps1[i1])) > 0);
        assert(ps2.map_values(f).to_multiset().count(f(ps1[i1])) > 0);
        assert(ps2.map_values(f).contains(f(ps1[i1])));
        let i2 = choose|i2: int| 0 <= i2 < ps2.len() && ps2.map_values(f)[i2] == f(ps1[i1]);
        assert(f(ps2[i2]) == f(ps1[i1]));
        assert(ps2[i2].key == q.0);
        assert(ps1[i1].distribution.contains(ps1[i1].distribution[j1]));
        assert(ps1[i1].distribution.to_multiset().count(ps1[i1].distribution[j1]) > 0);
        assert(ps2[i2].distribution.to_multiset().count(ps1[i1].distribution[j1]) > 0);
        assert(ps2[i2].distribution.contains(ps1[i1].distribution[j1]));
        let j2 = choose|j2: int|
            0 <= j2 < ps2[i2].distribution.len() && ps2[i2].distribution[j2] == ps1[
                i1
            ].distribution[j1];
        assert(dist_triple(ps2[i2].distribution[j2]) == q.1);
    }
}

proof fn lemma_two_indexes_of_count_two_pairs(
    s: Seq<(Seq<char>, Multiset<ValueDistributionV>)>,
    x: (Seq<char>, Multiset<ValueDistributionV>),
    i: int,
    j: int,
)
    requires
        0 <= i < j < s.len(),
        s[i] == x,
        s[j] == x,
    ensures
        s.to_multiset().count(x) >= 2,
{
    let sp = s.remove(i);
    assert(sp.to_multiset() =~= s.to_multiset().remove(x));
    assert(sp[j - 1] == x);
    assert(sp.contains(x));
    assert(sp.to_multiset().count(x) > 0);
}

proof fn lemma_two_indexes_of_count_two_dist(
    s: Seq<ValueDistributionV>,
    x: ValueDistributionV,
    i: int,
    j: int,
)
    requires
        0 <= i < j < s.len(),
        s[i] == x,
        s[j] == x,
    ensures
        s.to_multiset().count(x) >= 2,
{
    let sp = s.remove(i);
    assert(sp.to_multiset() =~= s.to_multiset().remove(x));
    assert(sp[j - 1] == x);
    assert(sp.contains(x));
    assert(sp.to_multiset().count(x) > 0);
}

} // verus!




