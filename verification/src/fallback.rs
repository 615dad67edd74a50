//! The walk along fallback pointers from one bucket to the next.

use crate::cloud_client::{current_bucket, CloudClient};
use crate::config::{
    bucket_names, source_names, BucketSource, BucketSourceView, CloudSourceView, ConfigView,
};
use crate::error::XResult;
use crate::names::{lemma_position_of, position_of};
use crate::text::{is_first_index, split_at_first, split_once};
use vstd::prelude::*;
use vstd::seq_lib::seq_to_set_is_finite;
use vstd::set_lib::lemma_len_subset;

verus! {

/// The bucket that the fallback pointer of `current` leads to, without any gate: the bucket
/// that stands behind the pointer's first `.`, in the cloud source that stands before it. A
/// pointer without a `.` leads nowhere, as one that names nothing in the configuration does.
pub open spec fn next_hop(config: Option<ConfigView>, current: BucketSourceView) -> Option<
    BucketSourceView,
> {
    match current.fallback {
        Some(pointer) => match split_at_first(pointer, '.') {
            Some((cloud_name, bucket_name)) => match current_bucket(
                config,
                bucket_name,
                cloud_name,
                false,
                0,
            ) {
                Ok(b) => Some(b),
                Err(_) => None,
            },
            None => None,
        },
        None => None,
    }
}

/// Whether a bucket has no fallback pointer, or one that holds no `.`.
pub open spec fn points_nowhere(current: BucketSourceView) -> bool {
    match current.fallback {
        Some(pointer) => !pointer.contains('.'),
        None => true,
    }
}

/// A bucket without a pointer, or with one that holds no `.`, leads to no bucket.
pub proof fn lemma_hop_needs_dot(config: Option<ConfigView>, current: BucketSourceView)
    requires
        points_nowhere(current),
    ensures
        next_hop(config, current) is None,
{
    if let Some(pointer) = current.fallback {
        assert forall|i: int| !is_first_index(pointer, '.', i) by {
            if is_first_index(pointer, '.', i) {
                assert(pointer[i] == '.');
                assert(pointer.contains('.'));
            }
        }
        assert(split_at_first(pointer, '.') is None);
    }
}

/// The bucket from which the `i`-th bucket of the chain is reached.
pub open spec fn chain_origin(
    start: BucketSourceView,
    chain: Seq<BucketSourceView>,
    i: int,
) -> BucketSourceView {
    if i == 0 {
        start
    } else {
        chain[i - 1]
    }
}

/// `chain` holds the buckets that the fallback pointers lead to from `start`, each reached from
/// the one before it, none twice and none of `ignore`.
pub open spec fn is_chain_prefix(
    config: Option<ConfigView>,
    start: BucketSourceView,
    ignore: Seq<BucketSourceView>,
    chain: Seq<BucketSourceView>,
) -> bool {
    &&& chain.no_duplicates()
    &&& forall|i: int| 0 <= i < chain.len() ==> !ignore.contains(#[trigger] chain[i])
    &&& forall|i: int|
        0 <= i < chain.len() ==> next_hop(config, chain_origin(start, chain, i)) == Some(
            #[trigger] chain[i],
        )
}

/// `chain` is the whole walk from `start`: it ends where the pointer is absent or does not
/// resolve, or leads to a bucket that was met before or is in `ignore`.
pub open spec fn is_fallback_chain(
    config: Option<ConfigView>,
    start: BucketSourceView,
    ignore: Seq<BucketSourceView>,
    chain: Seq<BucketSourceView>,
) -> bool {
    &&& is_chain_prefix(config, start, ignore, chain)
    &&& match next_hop(config, chain_origin(start, chain, chain.len() as int)) {
        Some(next) => ignore.contains(next) || chain.contains(next),
        None => true,
    }
}

/// All buckets of the cloud sources, in order.
pub open spec fn all_buckets(sources: Seq<CloudSourceView>) -> Seq<BucketSourceView>
    decreases sources.len(),
{
    if sources.len() == 0 {
        Seq::empty()
    } else {
        all_buckets(sources.drop_last()) + sources.last().buckets
    }
}

/// The number of buckets that a configuration holds.
pub open spec fn bucket_count(config: Option<ConfigView>) -> nat {
    match config {
        Some(c) => all_buckets(c.cloud_source).len(),
        None => 0,
    }
}

/// Whether the bucket is one of the configuration's.
pub open spec fn in_config(config: Option<ConfigView>, b: BucketSourceView) -> bool {
    match config {
        Some(c) => all_buckets(c.cloud_source).contains(b),
        None => false,
    }
}

proof fn lemma_all_buckets_holds(sources: Seq<CloudSourceView>, i: int, j: int)
    requires
        0 <= i < sources.len(),
        0 <= j < sources[i].buckets.len(),
    ensures
        all_buckets(sources).contains(sources[i].buckets[j]),
    decreases sources.len(),
{
    let rest = all_buckets(sources.drop_last());
    let last = sources.last().buckets;
    if i == sources.len() - 1 {
        assert((rest + last)[rest.len() + j] == last[j]);
    } else {
        lemma_all_buckets_holds(sources.drop_last(), i, j);
        let k = choose|k: int| 0 <= k < rest.len() && rest[k] == sources[i].buckets[j];
        assert((rest + last)[k] == rest[k]);
    }
}

/// A bucket that a pointer leads to is one of the configuration's buckets.
proof fn lemma_hop_in_config(config: Option<ConfigView>, current: BucketSourceView)
    ensures
        next_hop(config, current) matches Some(next) ==> in_config(config, next),
{
    if let Some(next) = next_hop(config, current) {
        let c = config.unwrap();
        let (cloud_name, bucket_name) = split_at_first(current.fallback.unwrap(), '.').unwrap();
        lemma_position_of(source_names(c.cloud_source), cloud_name);
        let s = c.source(cloud_name).unwrap();
        let i = position_of(source_names(c.cloud_source), cloud_name).unwrap();
        lemma_position_of(bucket_names(s.buckets), bucket_name);
        let j = position_of(bucket_names(s.buckets), bucket_name).unwrap();
        lemma_all_buckets_holds(c.cloud_source, i, j);
    }
}

/// Distinct items out of a sequence are no more than the sequence holds.
proof fn lemma_distinct_within(chain: Seq<BucketSourceView>, all: Seq<BucketSourceView>)
    requires
        chain.no_duplicates(),
        forall|i: int| 0 <= i < chain.len() ==> all.contains(#[trigger] chain[i]),
    ensures
        chain.len() <= all.len(),
{
    chain.unique_seq_to_set();
    all.lemma_cardinality_of_set();
    seq_to_set_is_finite(all);
    assert(chain.to_set().subset_of(all.to_set())) by {
        assert forall|b: BucketSourceView| chain.to_set().contains(b) implies all.to_set().contains(
            b,
        ) by {
            let i = choose|i: int| 0 <= i < chain.len() && chain[i] == b;
            assert(all.contains(chain[i]));
        }
    }
    lemma_len_subset(chain.to_set(), all.to_set());
}

/// A walk is no longer than the configuration has buckets.
pub proof fn lemma_chain_length(
    config: Option<ConfigView>,
    start: BucketSourceView,
    ignore: Seq<BucketSourceView>,
    chain: Seq<BucketSourceView>,
)
    requires
        is_chain_prefix(config, start, ignore, chain),
    ensures
        chain.len() <= bucket_count(config),
{
    if chain.len() > 0 {
        assert forall|i: int| 0 <= i < chain.len() implies in_config(config, #[trigger] chain[i]) by {
            lemma_hop_in_config(config, chain_origin(start, chain, i));
            assert(next_hop(config, chain_origin(start, chain, i)) == Some(chain[i]));
        }
        assert(in_config(config, chain[0]));
        lemma_distinct_within(chain, all_buckets(config.unwrap().cloud_source));
    }
}

/// Every walk can be walked to its end: what has been walked so far is the beginning of a
/// whole walk.
pub proof fn lemma_chain_exists(
    config: Option<ConfigView>,
    start: BucketSourceView,
    ignore: Seq<BucketSourceView>,
    walked: Seq<BucketSourceView>,
)
    requires
        is_chain_prefix(config, start, ignore, walked),
    ensures
        exists|chain: Seq<BucketSourceView>| is_fallback_chain(config, start, ignore, chain),
    decreases bucket_count(config) - walked.len(),
{
    lemma_chain_length(config, start, ignore, walked);
    let current = chain_origin(start, walked, walked.len() as int);
    let next = next_hop(config, current);
    if next is Some && !ignore.contains(next.unwrap()) && !walked.contains(next.unwrap()) {
        let longer = walked.push(next.unwrap());
        assert(is_chain_prefix(config, start, ignore, longer)) by {
            assert forall|i: int| 0 <= i < longer.len() implies !ignore.contains(
                #[trigger] longer[i],
            ) by {
                if i < walked.len() {
                    assert(longer[i] == walked[i]);
                }
            }
            assert forall|i: int| 0 <= i < longer.len() implies next_hop(
                config,
                chain_origin(start, longer, i),
            ) == Some(#[trigger] longer[i]) by {
                if i < walked.len() {
                    assert(longer[i] == walked[i]);
                    assert(chain_origin(start, longer, i) == chain_origin(start, walked, i));
                }
            }
        }
        lemma_chain_length(config, start, ignore, longer);
        lemma_chain_exists(config, start, ignore, longer);
    } else {
        assert(is_fallback_chain(config, start, ignore, walked));
    }
}

/// The walk from a bucket is determined: two whole walks from the same bucket with the same
/// `ignore` are the same, and a walk never holds a bucket twice.
pub proof fn lemma_fallback_chain_unique(
    config: Option<ConfigView>,
    start: BucketSourceView,
    ignore: Seq<BucketSourceView>,
    a: Seq<BucketSourceView>,
    b: Seq<BucketSourceView>,
)
    requires
        is_fallback_chain(config, start, ignore, a),
        is_fallback_chain(config, start, ignore, b),
    ensures
        a == b,
        a.no_duplicates(),
{
    assert forall|i: int| 0 <= i < a.len() && 0 <= i < b.len() implies a[i] == b[i] by {
        lemma_chain_agrees(config, start, ignore, a, b, i);
    }
    if a.len() < b.len() {
        let n = a.len() as int;
        assert(chain_origin(start, a, n) == chain_origin(start, b, n)) by {
            if n > 0 {
                lemma_chain_agrees(config, start, ignore, a, b, n - 1);
            }
        }
        let next = b[n];
        assert(next_hop(config, chain_origin(start, b, n)) == Some(next));
        assert(!ignore.contains(next));
        assert(a.contains(next));
        let k = choose|k: int| 0 <= k < a.len() && a[k] == next;
        lemma_chain_agrees(config, start, ignore, a, b, k);
        assert(b[k] == b[n]);
    }
    if b.len() < a.len() {
        let n = b.len() as int;
        assert(chain_origin(start, a, n) == chain_origin(start, b, n)) by {
            if n > 0 {
                lemma_chain_agrees(config, start, ignore, a, b, n - 1);
            }
        }
        let next = a[n];
        assert(next_hop(config, chain_origin(start, a, n)) == Some(next));
        assert(!ignore.contains(next));
        assert(b.contains(next));
        let k = choose|k: int| 0 <= k < b.len() && b[k] == next;
        lemma_chain_agrees(config, start, ignore, a, b, k);
        assert(a[k] == a[n]);
    }
    assert(a =~= b);
}

proof fn lemma_chain_agrees(
    config: Option<ConfigView>,
    start: BucketSourceView,
    ignore: Seq<BucketSourceView>,
    a: Seq<BucketSourceView>,
    b: Seq<BucketSourceView>,
    i: int,
)
    requires
        is_chain_prefix(config, start, ignore, a),
        is_chain_prefix(config, start, ignore, b),
        0 <= i < a.len(),
        i < b.len(),
    ensures
        a[i] == b[i],
    decreases i,
{
    if i > 0 {
        lemma_chain_agrees(config, start, ignore, a, b, i - 1);
    }
    assert(next_hop(config, chain_origin(start, a, i)) == Some(a[i]));
    assert(next_hop(config, chain_origin(start, b, i)) == Some(b[i]));
}

/// Whether one of `list` holds the same as `wanted`.
fn holds_same(list: &[&BucketSource], wanted: &BucketSource) -> (r: bool)
    ensures
        r == list.deep_view().contains(wanted@),
{
    let mut i: usize = 0;
    while i < list.len()
        invariant
            i <= list.len(),
            forall|j: int| 0 <= j < i ==> list.deep_view()[j] != wanted@,
        decreases list.len() - i,
    {
        if list[i].same_as(wanted) {
            assert(list.deep_view()[i as int] == wanted@);
            return true;
        }
        i += 1;
    }
    false
}

impl CloudClient {
    /// The cloud source and the bucket that a fallback pointer names: what stands before its
    /// first `.`, and what stands behind it where there is one.
    pub fn parse_fallback<'b>(&self, fallback: &'b str) -> (r: (&'b str, Option<&'b str>))
        ensures
            match split_at_first(fallback@, '.') {
                Some((cloud, bucket)) => r.0@ == cloud && r.1.deep_view() == Some(bucket),
                None => r.0@ == fallback@ && r.1 is None,
            },
    {
        match split_once(fallback, '.') {
            Some((cloud, bucket)) => (cloud, Some(bucket)),
            None => (fallback, None),
        }
    }

    /// The buckets that the fallback pointers lead to from `bucket_source`, in the order in
    /// which the walk meets them. The walk takes no grayscale gate. It ends where a pointer is
    /// absent, holds no `.` or names nothing in the configuration, or leads to a bucket that
    /// was met before or is in `ignore`, so it ends on every configuration, and it holds no
    /// bucket twice.
    pub fn feedback_bucket_sources<'a>(
        &'a self,
        bucket_source: &'a BucketSource,
        ignore: &[&BucketSource],
    ) -> (r: XResult<Vec<&'a BucketSource>>)
        ensures
            r matches Ok(chain) && is_fallback_chain(
                self.config.deep_view(),
                bucket_source@,
                ignore.deep_view(),
                chain.deep_view(),
            ) && chain.deep_view().no_duplicates() && chain.len() <= bucket_count(
                self.config.deep_view(),
            ),
            points_nowhere(bucket_source@) ==> (r matches Ok(chain) && chain.len() == 0),
    {
        let ghost config = self.config.deep_view();
        proof {
            if points_nowhere(bucket_source@) {
                lemma_hop_needs_dot(config, bucket_source@);
            }
        }
        let ghost start = bucket_source@;
        let ghost ignored = ignore.deep_view();
        let mut sources: Vec<&'a BucketSource> = Vec::new();
        let mut current: &'a BucketSource = bucket_source;
        let mut walking = true;
        proof {
            assert(sources.deep_view() =~= Seq::<BucketSourceView>::empty());
        }
        while walking
            invariant
                config == self.config.deep_view(),
                start == bucket_source@,
                ignored == ignore.deep_view(),
                is_chain_prefix(config, start, ignored, sources.deep_view()),
                current@ == chain_origin(start, sources.deep_view(), sources.len() as int),
                forall|i: int|
                    0 <= i < sources.len() ==> in_config(config, #[trigger] sources.deep_view()[i]),
                sources.len() <= bucket_count(config),
                next_hop(config, start) is None ==> sources.len() == 0,
                !walking ==> is_fallback_chain(config, start, ignored, sources.deep_view()),
            decreases bucket_count(config) - sources.len() + (if walking {
                    1int
                } else {
                    0int
                }),
        {
            walking = false;
            let ghost chain = sources.deep_view();
            proof {
                lemma_hop_in_config(config, current@);
            }
            let hop = match &current.fallback {
                Some(fallback) => match self.parse_fallback(fallback.as_str()) {
                    (cloud_name, Some(bucket_name)) => match self.current_bucket_source(
                        bucket_name,
                        cloud_name,
                        false,
                    ) {
                        Ok(source) => Some(source),
                        Err(_) => None,
                    },
                    (_, None) => None,
                },
                None => None,
            };
            if let Some(source) = hop {
                if !holds_same(ignore, source) && !holds_same(sources.as_slice(), source) {
                    sources.push(source);
                    current = source;
                    walking = true;
                    proof {
                        let longer = sources.deep_view();
                        assert(longer =~= chain.push(source@));
                        assert forall|i: int| 0 <= i < longer.len() implies next_hop(
                            config,
                            chain_origin(start, longer, i),
                        ) == Some(#[trigger] longer[i]) by {
                            if i < chain.len() {
                                assert(chain_origin(start, longer, i) == chain_origin(
                                    start,
                                    chain,
                                    i,
                                ));
                                assert(longer[i] == chain[i]);
                            }
                        }
                        assert forall|i: int| 0 <= i < longer.len() implies !ignored.contains(
                            #[trigger] longer[i],
                        ) by {
                            if i < chain.len() {
                                assert(longer[i] == chain[i]);
                            }
                        }
                        assert forall|i: int| 0 <= i < longer.len() implies in_config(
                            config,
                            #[trigger] longer[i],
                        ) by {
                            if i < chain.len() {
                                assert(longer[i] == chain[i]);
                            }
                        }
                        lemma_distinct_within(longer, all_buckets(config.unwrap().cloud_source));
                    }
                }
            }
        }
        Ok(sources)
    }
}

} // verus!
