//! Merging the same configuration twice changes nothing the second time.
//!
//! The proof says, entry by entry, what a merge makes of a list: an entry that is the first of
//! its name takes what the incoming entries of that name bring, the last of them having the
//! last word, and the names that the list did not hold are appended. Merged once more, every
//! entry takes the same again.

use crate::config::{
    bucket_named, bucket_names, bucket_updated, magic_names, magic_updated, source_names,
    source_updated, upsert_bucket, upsert_buckets, upsert_magic, upsert_magics, upsert_source,
    upsert_sources, BucketSourceView, CloudMagicView, CloudSourceView, ConfigView,
};
use crate::names::{
    is_first_named, lemma_contains_last, lemma_position_found, lemma_position_of,
    lemma_position_push, position_of,
};
use vstd::prelude::*;

verus! {

/// No two buckets of one cloud source share a name.
pub open spec fn bucket_names_unique(config: ConfigView) -> bool {
    forall|i: int|
        0 <= i < config.cloud_source.len() ==> bucket_names(
            #[trigger] config.cloud_source[i].buckets,
        ).no_duplicates()
}

/// The first position of a name in a sequence and in one that begins with it.
proof fn lemma_position_prefix(short: Seq<Seq<char>>, long: Seq<Seq<char>>, name: Seq<char>)
    requires
        short.len() <= long.len(),
        forall|i: int| 0 <= i < short.len() ==> short[i] == long[i],
    ensures
        match position_of(short, name) {
            Some(p) => position_of(long, name) == Some(p),
            None => match position_of(long, name) {
                Some(p) => p >= short.len(),
                None => true,
            },
        },
{
    lemma_position_of(short, name);
    lemma_position_of(long, name);
    match position_of(short, name) {
        Some(p) => {
            assert(is_first_named(long, name, p)) by {
                assert forall|j: int| 0 <= j < p implies long[j] != name by {
                    assert(short[j] == long[j]);
                }
            }
            lemma_position_found(long, name, p);
        },
        None => {
            if let Some(p) = position_of(long, name) {
                if p < short.len() {
                    assert(short[p] == long[p]);
                }
            }
        },
    }
}

/// A name has a first position where it occurs, and only there.
proof fn lemma_position_contains(names: Seq<Seq<char>>, name: Seq<char>)
    ensures
        position_of(names, name) is Some <==> names.contains(name),
{
    lemma_position_of(names, name);
    if names.contains(name) {
        let j = choose|j: int| 0 <= j < names.len() && names[j] == name;
        assert(names[j] == name);
    }
}

/// The last of the buckets that go by `name`.
pub open spec fn last_bucket_named(incoming: Seq<BucketSourceView>, name: Seq<char>) -> Option<
    BucketSourceView,
>
    decreases incoming.len(),
{
    if incoming.len() == 0 {
        None
    } else if incoming.last().name == name {
        Some(incoming.last())
    } else {
        last_bucket_named(incoming.drop_last(), name)
    }
}

/// The `i`-th bucket once `incoming` has been merged: where it is the first of its name, it
/// has the three addresses of the last incoming bucket of that name.
pub open spec fn bucket_merged(
    buckets: Seq<BucketSourceView>,
    incoming: Seq<BucketSourceView>,
    i: int,
) -> BucketSourceView {
    let b = buckets[i];
    if position_of(bucket_names(buckets), b.name) == Some(i) {
        match last_bucket_named(incoming, b.name) {
            Some(last) => bucket_updated(b, last),
            None => b,
        }
    } else {
        b
    }
}

/// A bucket that the merge of `incoming` has appended: it is the first of its name, which
/// `buckets` does not hold; it is the first incoming bucket of that name, with the three
/// addresses of the last.
pub open spec fn bucket_appended(
    buckets: Seq<BucketSourceView>,
    incoming: Seq<BucketSourceView>,
    after: Seq<BucketSourceView>,
    i: int,
) -> bool {
    &&& !bucket_names(buckets).contains(after[i].name)
    &&& position_of(bucket_names(after), after[i].name) == Some(i)
    &&& match (bucket_named(incoming, after[i].name), last_bucket_named(incoming, after[i].name)) {
        (Some(first), Some(last)) => after[i] == bucket_updated(first, last),
        _ => false,
    }
}

/// `after` is `buckets` with `incoming` merged in, said bucket by bucket.
pub open spec fn buckets_merged(
    buckets: Seq<BucketSourceView>,
    incoming: Seq<BucketSourceView>,
    after: Seq<BucketSourceView>,
) -> bool {
    &&& after.len() >= buckets.len()
    &&& forall|i: int|
        0 <= i < buckets.len() ==> #[trigger] after[i] == bucket_merged(buckets, incoming, i)
    &&& forall|i: int|
        buckets.len() <= i < after.len() ==> #[trigger] bucket_appended(
            buckets,
            incoming,
            after,
            i,
        )
    &&& forall|k: int|
        0 <= k < incoming.len() ==> bucket_names(after).contains(#[trigger] incoming[k].name)
    &&& (forall|k: int|
        0 <= k < incoming.len() ==> bucket_names(buckets).contains(#[trigger] incoming[k].name))
        ==> after.len() == buckets.len()
}

proof fn lemma_bucket_names_after(buckets: Seq<BucketSourceView>, b: BucketSourceView)
    ensures
        bucket_names(upsert_bucket(buckets, b)) == match position_of(
            bucket_names(buckets),
            b.name,
        ) {
            Some(_) => bucket_names(buckets),
            None => bucket_names(buckets).push(b.name),
        },
{
    let names = bucket_names(buckets);
    lemma_position_of(names, b.name);
    match position_of(names, b.name) {
        Some(i) => {
            assert(bucket_names(buckets.update(i, bucket_updated(buckets[i], b))) =~= names);
        },
        None => {
            assert(bucket_names(buckets.push(b)) =~= names.push(b.name));
        },
    }
}

proof fn lemma_bucket_names_grow(incoming: Seq<BucketSourceView>, name: Seq<char>)
    requires
        incoming.len() > 0,
    ensures
        bucket_names(incoming).contains(name) <==> bucket_names(incoming.drop_last()).contains(
            name,
        ) || incoming.last().name == name,
{
    assert(bucket_names(incoming).drop_last() =~= bucket_names(incoming.drop_last()));
    assert(bucket_names(incoming).last() == incoming.last().name);
    lemma_contains_last(bucket_names(incoming), name);
}

/// There is a last bucket of a name where the name occurs, and only there.
proof fn lemma_last_bucket_named(incoming: Seq<BucketSourceView>, name: Seq<char>)
    ensures
        last_bucket_named(incoming, name) is Some <==> bucket_names(incoming).contains(name),
        last_bucket_named(incoming, name) matches Some(b) ==> b.name == name,
    decreases incoming.len(),
{
    if incoming.len() > 0 {
        lemma_bucket_names_grow(incoming, name);
        lemma_last_bucket_named(incoming.drop_last(), name);
    }
}

/// The first bucket of a name stays the first when a bucket is appended.
proof fn lemma_first_bucket_stays(incoming: Seq<BucketSourceView>, name: Seq<char>)
    requires
        incoming.len() > 0,
    ensures
        bucket_named(incoming, name) == match bucket_named(incoming.drop_last(), name) {
            Some(b) => Some(b),
            None => if incoming.last().name == name {
                Some(incoming.last())
            } else {
                None
            },
        },
{
    let earlier = incoming.drop_last();
    assert(bucket_names(incoming) =~= bucket_names(earlier).push(incoming.last().name));
    lemma_position_push(bucket_names(earlier), incoming.last().name, name);
    lemma_position_of(bucket_names(earlier), name);
}

/// What the merge of `incoming` makes of `buckets`, bucket by bucket: a bucket that is the
/// first of its name has the three addresses of the last incoming bucket of that name, and
/// for each name that `buckets` did not hold the first incoming bucket of that name is
/// appended, with the three addresses of the last.
pub proof fn law_buckets_merged(buckets: Seq<BucketSourceView>, incoming: Seq<BucketSourceView>)
    ensures
        buckets_merged(buckets, incoming, upsert_buckets(buckets, incoming)),
    decreases incoming.len(),
{
    let after = upsert_buckets(buckets, incoming);
    let names = bucket_names(buckets);
    if incoming.len() == 0 {
    } else {
        let earlier = incoming.drop_last();
        let w = incoming.last();
        let inner = upsert_buckets(buckets, earlier);
        law_buckets_merged(buckets, earlier);
        lemma_bucket_names_after(inner, w);
        let inner_names = bucket_names(inner);
        let after_names = bucket_names(after);
        assert forall|i: int| 0 <= i < names.len() implies names[i] == inner_names[i] by {
            assert(inner[i] == bucket_merged(buckets, earlier, i));
        }
        lemma_position_prefix(names, inner_names, w.name);
        lemma_position_of(inner_names, w.name);
        lemma_position_of(names, w.name);
        lemma_bucket_names_grow(incoming, w.name);
        lemma_last_bucket_named(earlier, w.name);
        lemma_first_bucket_stays(incoming, w.name);
        lemma_position_contains(bucket_names(earlier), w.name);
        match position_of(inner_names, w.name) {
            Some(p) => {
                assert(after == inner.update(p, bucket_updated(inner[p], w)));
                assert(after_names == inner_names);
                assert forall|i: int| 0 <= i < buckets.len() implies #[trigger] after[i]
                    == bucket_merged(buckets, incoming, i) by {
                    assert(inner[i] == bucket_merged(buckets, earlier, i));
                    if i == p {
                        assert(position_of(names, w.name) == Some(p));
                    } else {
                        if buckets[i].name == w.name {
                            assert(position_of(names, buckets[i].name) != Some(i)) by {
                                if position_of(names, w.name) == Some(i) {
                                    assert(position_of(inner_names, w.name) == Some(i));
                                }
                            }
                        }
                    }
                }
                assert forall|i: int| buckets.len() <= i < after.len() implies #[trigger] bucket_appended(
                    buckets,
                    incoming,
                    after,
                    i,
                ) by {
                    assert(bucket_appended(buckets, earlier, inner, i));
                    lemma_first_bucket_stays(incoming, inner[i].name);
                    if i != p {
                        assert(inner[i].name != w.name);
                    }
                }
                assert forall|k: int| 0 <= k < incoming.len() implies after_names.contains(
                    #[trigger] incoming[k].name,
                ) by {
                    if k < earlier.len() {
                        assert(earlier[k] == incoming[k]);
                    } else {
                        assert(inner_names[p] == w.name);
                    }
                }
                if forall|k: int|
                    0 <= k < incoming.len() ==> names.contains(#[trigger] incoming[k].name) {
                    assert forall|k: int| 0 <= k < earlier.len() implies names.contains(
                        #[trigger] earlier[k].name,
                    ) by {
                        assert(earlier[k] == incoming[k]);
                    }
                }
            },
            None => {
                assert(after == inner.push(w));
                assert(after_names == inner_names.push(w.name));
                assert(!names.contains(w.name)) by {
                    if names.contains(w.name) {
                        let j = choose|j: int| 0 <= j < names.len() && names[j] == w.name;
                        assert(inner_names[j] == w.name);
                    }
                }
                assert(!bucket_names(earlier).contains(w.name)) by {
                    if bucket_names(earlier).contains(w.name) {
                        let k = choose|k: int|
                            0 <= k < earlier.len() && bucket_names(earlier)[k] == w.name;
                        assert(inner_names.contains(earlier[k].name));
                        let j = choose|j: int|
                            0 <= j < inner_names.len() && inner_names[j] == earlier[k].name;
                        assert(inner_names[j] == w.name);
                    }
                }
                assert forall|i: int| 0 <= i < buckets.len() implies #[trigger] after[i]
                    == bucket_merged(buckets, incoming, i) by {
                    assert(inner[i] == bucket_merged(buckets, earlier, i));
                    assert(names[i] == buckets[i].name);
                }
                assert forall|i: int| buckets.len() <= i < after.len() implies #[trigger] bucket_appended(
                    buckets,
                    incoming,
                    after,
                    i,
                ) by {
                    if i < inner.len() {
                        assert(bucket_appended(buckets, earlier, inner, i));
                        lemma_first_bucket_stays(incoming, inner[i].name);
                        lemma_position_push(inner_names, w.name, inner[i].name);
                        assert(inner_names[i] == inner[i].name);
                    } else {
                        lemma_position_push(inner_names, w.name, w.name);
                    }
                }
                assert forall|k: int| 0 <= k < incoming.len() implies after_names.contains(
                    #[trigger] incoming[k].name,
                ) by {
                    if k < earlier.len() {
                        assert(earlier[k] == incoming[k]);
                        let j = choose|j: int|
                            0 <= j < inner_names.len() && inner_names[j] == earlier[k].name;
                        assert(after_names[j] == incoming[k].name);
                    } else {
                        assert(after_names[inner.len() as int] == w.name);
                    }
                }
                assert(!(forall|k: int|
                    0 <= k < incoming.len() ==> names.contains(#[trigger] incoming[k].name))) by {
                    assert(incoming[incoming.len() - 1].name == w.name);
                }
            },
        }
    }
}

/// Merging the same buckets once more changes nothing.
proof fn lemma_buckets_idempotent(buckets: Seq<BucketSourceView>, incoming: Seq<BucketSourceView>)
    ensures
        upsert_buckets(upsert_buckets(buckets, incoming), incoming) == upsert_buckets(
            buckets,
            incoming,
        ),
{
    let once = upsert_buckets(buckets, incoming);
    let twice = upsert_buckets(once, incoming);
    law_buckets_merged(buckets, incoming);
    law_buckets_merged(once, incoming);
    let names = bucket_names(buckets);
    let once_names = bucket_names(once);
    assert(twice.len() == once.len());
    assert forall|i: int| 0 <= i < names.len() implies names[i] == once_names[i] by {
        assert(once[i] == bucket_merged(buckets, incoming, i));
    }
    assert forall|i: int| 0 <= i < once.len() implies twice[i] == once[i] by {
        assert(twice[i] == bucket_merged(once, incoming, i));
        let n = once[i].name;
        if position_of(once_names, n) == Some(i) && last_bucket_named(incoming, n) is Some {
            if i < buckets.len() {
                assert(once[i] == bucket_merged(buckets, incoming, i));
                lemma_position_prefix(names, once_names, n);
                lemma_position_of(names, n);
                assert(names[i] == n);
                assert(position_of(names, n) == Some(i));
            } else {
                assert(bucket_appended(buckets, incoming, once, i));
            }
        }
    }
    assert(twice =~= once);
}

/// Merging two lists of buckets one after the other is merging the one list of both.
proof fn lemma_buckets_in_turn(
    buckets: Seq<BucketSourceView>,
    first: Seq<BucketSourceView>,
    second: Seq<BucketSourceView>,
)
    ensures
        upsert_buckets(upsert_buckets(buckets, first), second) == upsert_buckets(
            buckets,
            first + second,
        ),
    decreases second.len(),
{
    if second.len() == 0 {
        assert(first + second =~= first);
    } else {
        lemma_buckets_in_turn(buckets, first, second.drop_last());
        assert((first + second).drop_last() =~= first + second.drop_last());
        assert((first + second).last() == second.last());
    }
}

/// Buckets with names of their own, merged into an empty list, are the list of them.
proof fn lemma_buckets_into_empty(incoming: Seq<BucketSourceView>)
    requires
        bucket_names(incoming).no_duplicates(),
    ensures
        upsert_buckets(Seq::empty(), incoming) == incoming,
    decreases incoming.len(),
{
    if incoming.len() == 0 {
        assert(incoming =~= Seq::<BucketSourceView>::empty());
    } else {
        let earlier = incoming.drop_last();
        assert(bucket_names(earlier) =~= bucket_names(incoming).drop_last());
        lemma_buckets_into_empty(earlier);
        assert(position_of(bucket_names(earlier), incoming.last().name) is None) by {
            lemma_position_of(bucket_names(earlier), incoming.last().name);
            if let Some(j) = position_of(bucket_names(earlier), incoming.last().name) {
                assert(bucket_names(incoming)[j] == bucket_names(incoming)[incoming.len() - 1]);
            }
        }
        assert(earlier.push(incoming.last()) =~= incoming);
    }
}

/// The buckets of all cloud sources of `incoming` that go by `name`, in order.
pub open spec fn buckets_named(incoming: Seq<CloudSourceView>, name: Seq<char>) -> Seq<
    BucketSourceView,
>
    decreases incoming.len(),
{
    if incoming.len() == 0 {
        Seq::empty()
    } else {
        let rest = buckets_named(incoming.drop_last(), name);
        if incoming.last().name == name {
            rest + incoming.last().buckets
        } else {
            rest
        }
    }
}

/// The last of the cloud sources that go by `name`.
pub open spec fn last_source_named(incoming: Seq<CloudSourceView>, name: Seq<char>) -> Option<
    CloudSourceView,
>
    decreases incoming.len(),
{
    if incoming.len() == 0 {
        None
    } else if incoming.last().name == name {
        Some(incoming.last())
    } else {
        last_source_named(incoming.drop_last(), name)
    }
}

/// The cloud source `base` with what the incoming sources of its name bring: the provider
/// family and grayscale of the last, and the buckets of all of them merged in.
pub open spec fn source_taking(
    base: CloudSourceView,
    incoming: Seq<CloudSourceView>,
) -> CloudSourceView {
    match last_source_named(incoming, base.name) {
        Some(last) => CloudSourceView {
            name: base.name,
            cloud: last.cloud,
            grayscale: last.grayscale,
            buckets: upsert_buckets(base.buckets, buckets_named(incoming, base.name)),
        },
        None => base,
    }
}

/// The `i`-th cloud source once `incoming` has been merged.
pub open spec fn source_merged(
    sources: Seq<CloudSourceView>,
    incoming: Seq<CloudSourceView>,
    i: int,
) -> CloudSourceView {
    if position_of(source_names(sources), sources[i].name) == Some(i) {
        source_taking(sources[i], incoming)
    } else {
        sources[i]
    }
}

/// A cloud source that the merge of `incoming` has appended: it is the first of its name,
/// which `sources` does not hold, and has what the incoming sources of that name bring.
pub open spec fn source_appended(
    sources: Seq<CloudSourceView>,
    incoming: Seq<CloudSourceView>,
    after: Seq<CloudSourceView>,
    i: int,
) -> bool {
    &&& !source_names(sources).contains(after[i].name)
    &&& position_of(source_names(after), after[i].name) == Some(i)
    &&& last_source_named(incoming, after[i].name) is Some
    &&& after[i] == source_taking(
        CloudSourceView {
            name: after[i].name,
            cloud: None,
            grayscale: None,
            buckets: Seq::empty(),
        },
        incoming,
    )
}

/// `after` is `sources` with `incoming` merged in, said source by source.
pub open spec fn sources_merged(
    sources: Seq<CloudSourceView>,
    incoming: Seq<CloudSourceView>,
    after: Seq<CloudSourceView>,
) -> bool {
    &&& after.len() >= sources.len()
    &&& forall|i: int|
        0 <= i < sources.len() ==> #[trigger] after[i] == source_merged(sources, incoming, i)
    &&& forall|i: int|
        sources.len() <= i < after.len() ==> #[trigger] source_appended(
            sources,
            incoming,
            after,
            i,
        )
    &&& forall|k: int|
        0 <= k < incoming.len() ==> source_names(after).contains(#[trigger] incoming[k].name)
    &&& (forall|k: int|
        0 <= k < incoming.len() ==> source_names(sources).contains(#[trigger] incoming[k].name))
        ==> after.len() == sources.len()
}

proof fn lemma_source_names_after(sources: Seq<CloudSourceView>, s: CloudSourceView)
    ensures
        source_names(upsert_source(sources, s)) == match position_of(
            source_names(sources),
            s.name,
        ) {
            Some(_) => source_names(sources),
            None => source_names(sources).push(s.name),
        },
{
    let names = source_names(sources);
    lemma_position_of(names, s.name);
    match position_of(names, s.name) {
        Some(i) => {
            assert(source_names(sources.update(i, source_updated(sources[i], s))) =~= names);
        },
        None => {
            assert(source_names(sources.push(s)) =~= names.push(s.name));
        },
    }
}

proof fn lemma_source_names_grow(incoming: Seq<CloudSourceView>, name: Seq<char>)
    requires
        incoming.len() > 0,
    ensures
        source_names(incoming).contains(name) <==> source_names(incoming.drop_last()).contains(
            name,
        ) || incoming.last().name == name,
{
    assert(source_names(incoming).drop_last() =~= source_names(incoming.drop_last()));
    assert(source_names(incoming).last() == incoming.last().name);
    lemma_contains_last(source_names(incoming), name);
}

/// There is a last cloud source of a name where the name occurs, and only there; where it
/// does not occur, its sources bring no buckets.
proof fn lemma_last_source_named(incoming: Seq<CloudSourceView>, name: Seq<char>)
    ensures
        last_source_named(incoming, name) is Some <==> source_names(incoming).contains(name),
        last_source_named(incoming, name) is None ==> buckets_named(incoming, name)
            == Seq::<BucketSourceView>::empty(),
    decreases incoming.len(),
{
    if incoming.len() > 0 {
        lemma_source_names_grow(incoming, name);
        lemma_last_source_named(incoming.drop_last(), name);
    }
}

/// What a cloud source has taken from the earlier incoming sources, and then from one more.
proof fn lemma_source_takes_more(base: CloudSourceView, incoming: Seq<CloudSourceView>)
    requires
        incoming.len() > 0,
        incoming.last().name == base.name,
    ensures
        source_updated(source_taking(base, incoming.drop_last()), incoming.last())
            == source_taking(base, incoming),
{
    let earlier = incoming.drop_last();
    let s = incoming.last();
    lemma_last_source_named(earlier, base.name);
    lemma_buckets_in_turn(base.buckets, buckets_named(earlier, base.name), s.buckets);
    if last_source_named(earlier, base.name) is None {
        assert(buckets_named(earlier, base.name) + s.buckets =~= s.buckets);
        assert(upsert_buckets(base.buckets, Seq::<BucketSourceView>::empty()) == base.buckets);
    }
}

/// What the merge of `incoming` makes of `sources`, source by source: a cloud source that is
/// the first of its name has the provider family and grayscale of the last incoming source of
/// that name and the buckets of all of them merged into its own, and for each name that
/// `sources` did not hold a cloud source with what the incoming ones of that name bring is
/// appended.
pub proof fn law_sources_merged(sources: Seq<CloudSourceView>, incoming: Seq<CloudSourceView>)
    requires
        forall|i: int|
            0 <= i < incoming.len() ==> bucket_names(#[trigger] incoming[i].buckets).no_duplicates(),
    ensures
        sources_merged(sources, incoming, upsert_sources(sources, incoming)),
    decreases incoming.len(),
{
    let after = upsert_sources(sources, incoming);
    let names = source_names(sources);
    if incoming.len() == 0 {
    } else {
        let earlier = incoming.drop_last();
        let s = incoming.last();
        let inner = upsert_sources(sources, earlier);
        assert forall|i: int| 0 <= i < earlier.len() implies bucket_names(
            #[trigger] earlier[i].buckets,
        ).no_duplicates() by {
            assert(earlier[i] == incoming[i]);
        }
        law_sources_merged(sources, earlier);
        lemma_source_names_after(inner, s);
        let inner_names = source_names(inner);
        let after_names = source_names(after);
        assert forall|i: int| 0 <= i < names.len() implies names[i] == inner_names[i] by {
            assert(inner[i] == source_merged(sources, earlier, i));
        }
        lemma_position_prefix(names, inner_names, s.name);
        lemma_position_of(inner_names, s.name);
        lemma_position_of(names, s.name);
        lemma_source_names_grow(incoming, s.name);
        lemma_last_source_named(earlier, s.name);
        match position_of(inner_names, s.name) {
            Some(p) => {
                assert(after == inner.update(p, source_updated(inner[p], s)));
                assert(after_names == inner_names);
                assert forall|i: int| 0 <= i < sources.len() implies #[trigger] after[i]
                    == source_merged(sources, incoming, i) by {
                    assert(inner[i] == source_merged(sources, earlier, i));
                    if i == p {
                        assert(position_of(names, s.name) == Some(p));
                        lemma_source_takes_more(sources[p], incoming);
                    } else {
                        if sources[i].name == s.name {
                            assert(position_of(names, sources[i].name) != Some(i)) by {
                                if position_of(names, s.name) == Some(i) {
                                    assert(position_of(inner_names, s.name) == Some(i));
                                }
                            }
                        }
                    }
                }
                assert forall|i: int| sources.len() <= i < after.len() implies #[trigger] source_appended(
                    sources,
                    incoming,
                    after,
                    i,
                ) by {
                    assert(source_appended(sources, earlier, inner, i));
                    if i == p {
                        lemma_source_takes_more(
                            CloudSourceView {
                                name: s.name,
                                cloud: None,
                                grayscale: None,
                                buckets: Seq::empty(),
                            },
                            incoming,
                        );
                    } else {
                        assert(inner[i].name != s.name);
                    }
                }
                assert forall|k: int| 0 <= k < incoming.len() implies after_names.contains(
                    #[trigger] incoming[k].name,
                ) by {
                    if k < earlier.len() {
                        assert(earlier[k] == incoming[k]);
                    } else {
                        assert(inner_names[p] == s.name);
                    }
                }
                if forall|k: int|
                    0 <= k < incoming.len() ==> names.contains(#[trigger] incoming[k].name) {
                    assert forall|k: int| 0 <= k < earlier.len() implies names.contains(
                        #[trigger] earlier[k].name,
                    ) by {
                        assert(earlier[k] == incoming[k]);
                    }
                }
            },
            None => {
                assert(after == inner.push(s));
                assert(after_names == inner_names.push(s.name));
                assert(!names.contains(s.name)) by {
                    if names.contains(s.name) {
                        let j = choose|j: int| 0 <= j < names.len() && names[j] == s.name;
                        assert(inner_names[j] == s.name);
                    }
                }
                assert(!source_names(earlier).contains(s.name)) by {
                    if source_names(earlier).contains(s.name) {
                        let k = choose|k: int|
                            0 <= k < earlier.len() && source_names(earlier)[k] == s.name;
                        assert(inner_names.contains(earlier[k].name));
                        let j = choose|j: int|
                            0 <= j < inner_names.len() && inner_names[j] == earlier[k].name;
                        assert(inner_names[j] == s.name);
                    }
                }
                assert forall|i: int| 0 <= i < sources.len() implies #[trigger] after[i]
                    == source_merged(sources, incoming, i) by {
                    assert(inner[i] == source_merged(sources, earlier, i));
                    assert(names[i] == sources[i].name);
                }
                assert forall|i: int| sources.len() <= i < after.len() implies #[trigger] source_appended(
                    sources,
                    incoming,
                    after,
                    i,
                ) by {
                    if i < inner.len() {
                        assert(source_appended(sources, earlier, inner, i));
                        lemma_position_push(inner_names, s.name, inner[i].name);
                        assert(inner_names[i] == inner[i].name);
                    } else {
                        lemma_position_push(inner_names, s.name, s.name);
                        assert(bucket_names(incoming[incoming.len() - 1].buckets).no_duplicates());
                        lemma_buckets_into_empty(s.buckets);
                        assert(buckets_named(incoming, s.name) =~= s.buckets);
                    }
                }
                assert forall|k: int| 0 <= k < incoming.len() implies after_names.contains(
                    #[trigger] incoming[k].name,
                ) by {
                    if k < earlier.len() {
                        assert(earlier[k] == incoming[k]);
                        let j = choose|j: int|
                            0 <= j < inner_names.len() && inner_names[j] == earlier[k].name;
                        assert(after_names[j] == incoming[k].name);
                    } else {
                        assert(after_names[inner.len() as int] == s.name);
                    }
                }
                assert(!(forall|k: int|
                    0 <= k < incoming.len() ==> names.contains(#[trigger] incoming[k].name))) by {
                    assert(incoming[incoming.len() - 1].name == s.name);
                }
            },
        }
    }
}

/// Merging the same cloud sources once more changes nothing.
proof fn lemma_sources_idempotent(sources: Seq<CloudSourceView>, incoming: Seq<CloudSourceView>)
    requires
        forall|i: int|
            0 <= i < incoming.len() ==> bucket_names(#[trigger] incoming[i].buckets).no_duplicates(),
    ensures
        upsert_sources(upsert_sources(sources, incoming), incoming) == upsert_sources(
            sources,
            incoming,
        ),
{
    let once = upsert_sources(sources, incoming);
    let twice = upsert_sources(once, incoming);
    law_sources_merged(sources, incoming);
    law_sources_merged(once, incoming);
    let names = source_names(sources);
    let once_names = source_names(once);
    assert(twice.len() == once.len());
    assert forall|i: int| 0 <= i < names.len() implies names[i] == once_names[i] by {
        assert(once[i] == source_merged(sources, incoming, i));
    }
    assert forall|i: int| 0 <= i < once.len() implies twice[i] == once[i] by {
        assert(twice[i] == source_merged(once, incoming, i));
        let n = once[i].name;
        if position_of(once_names, n) == Some(i) && last_source_named(incoming, n) is Some {
            let brought = buckets_named(incoming, n);
            if i < sources.len() {
                assert(once[i] == source_merged(sources, incoming, i));
                lemma_position_prefix(names, once_names, n);
                lemma_position_of(names, n);
                assert(names[i] == n);
                assert(position_of(names, n) == Some(i));
                lemma_buckets_idempotent(sources[i].buckets, brought);
            } else {
                assert(source_appended(sources, incoming, once, i));
                lemma_buckets_idempotent(Seq::empty(), brought);
            }
        }
    }
    assert(twice =~= once);
}

proof fn lemma_magic_names_grow(incoming: Seq<CloudMagicView>, name: Seq<char>)
    requires
        incoming.len() > 0,
    ensures
        magic_names(incoming).contains(name) <==> magic_names(incoming.drop_last()).contains(name)
            || incoming.last().name == name,
{
    assert(magic_names(incoming).drop_last() =~= magic_names(incoming.drop_last()));
    assert(magic_names(incoming).last() == incoming.last().name);
    lemma_contains_last(magic_names(incoming), name);
}

proof fn lemma_magic_names_after(magics: Seq<CloudMagicView>, m: CloudMagicView)
    ensures
        magic_names(upsert_magic(magics, m)) == match position_of(magic_names(magics), m.name) {
            Some(_) => magic_names(magics),
            None => magic_names(magics).push(m.name),
        },
{
    let names = magic_names(magics);
    lemma_position_of(names, m.name);
    match position_of(names, m.name) {
        Some(i) => {
            assert(magic_names(magics.update(i, magic_updated(magics[i], m))) =~= names);
        },
        None => {
            assert(magic_names(magics.push(m)) =~= names.push(m.name));
        },
    }
}

/// The fragments that the magics of `incoming` by the name `name` bring together, a later
/// magic's over an earlier one's.
pub open spec fn fragments_named(incoming: Seq<CloudMagicView>, name: Seq<char>) -> Map<
    Seq<char>,
    Seq<char>,
>
    decreases incoming.len(),
{
    if incoming.len() == 0 {
        Map::empty()
    } else {
        let rest = fragments_named(incoming.drop_last(), name);
        if incoming.last().name == name {
            rest.union_prefer_right(incoming.last().cloud_cfg)
        } else {
            rest
        }
    }
}

/// The `i`-th magic once `incoming` has been merged: where it is the first of its name and
/// `incoming` holds that name, it has the fragments of `incoming` over its own.
pub open spec fn magic_merged(
    magics: Seq<CloudMagicView>,
    incoming: Seq<CloudMagicView>,
    i: int,
) -> CloudMagicView {
    let m = magics[i];
    if position_of(magic_names(magics), m.name) == Some(i) && magic_names(incoming).contains(
        m.name,
    ) {
        CloudMagicView {
            name: m.name,
            cloud_cfg: m.cloud_cfg.union_prefer_right(fragments_named(incoming, m.name)),
        }
    } else {
        m
    }
}

/// A magic that the merge of `incoming` has appended: it is the first of its name, which
/// `magics` does not hold, and has the fragments of `incoming` for that name.
pub open spec fn magic_appended(
    magics: Seq<CloudMagicView>,
    incoming: Seq<CloudMagicView>,
    after: Seq<CloudMagicView>,
    i: int,
) -> bool {
    &&& !magic_names(magics).contains(after[i].name)
    &&& magic_names(incoming).contains(after[i].name)
    &&& position_of(magic_names(after), after[i].name) == Some(i)
    &&& after[i].cloud_cfg == fragments_named(incoming, after[i].name)
}

/// `after` is `magics` with `incoming` merged in, said magic by magic.
pub open spec fn magics_merged(
    magics: Seq<CloudMagicView>,
    incoming: Seq<CloudMagicView>,
    after: Seq<CloudMagicView>,
) -> bool {
    &&& after.len() >= magics.len()
    &&& forall|i: int|
        0 <= i < magics.len() ==> #[trigger] after[i] == magic_merged(magics, incoming, i)
    &&& forall|i: int|
        magics.len() <= i < after.len() ==> #[trigger] magic_appended(magics, incoming, after, i)
    &&& forall|k: int|
        0 <= k < incoming.len() ==> magic_names(after).contains(#[trigger] incoming[k].name)
    &&& (forall|k: int|
        0 <= k < incoming.len() ==> magic_names(magics).contains(#[trigger] incoming[k].name))
        ==> after.len() == magics.len()
}

proof fn lemma_fragments_absent(incoming: Seq<CloudMagicView>, name: Seq<char>)
    requires
        !magic_names(incoming).contains(name),
    ensures
        fragments_named(incoming, name) == Map::<Seq<char>, Seq<char>>::empty(),
    decreases incoming.len(),
{
    if incoming.len() > 0 {
        let earlier = incoming.drop_last();
        assert(magic_names(incoming)[incoming.len() - 1] == incoming.last().name);
        assert forall|j: int| 0 <= j < earlier.len() implies magic_names(earlier)[j] != name by {
            assert(magic_names(incoming)[j] == magic_names(earlier)[j]);
        }
        lemma_fragments_absent(earlier, name);
    }
}

/// What the merge of `incoming` makes of `magics`, magic by magic: a magic that is the first
/// of its name has the fragments of the incoming magics of that name over its own, a later
/// one's over an earlier one's, and for each name that `magics` did not hold a magic with the
/// fragments of the incoming ones of that name is appended.
pub proof fn law_magics_merged(magics: Seq<CloudMagicView>, incoming: Seq<CloudMagicView>)
    ensures
        magics_merged(magics, incoming, upsert_magics(magics, incoming)),
    decreases incoming.len(),
{
    let after = upsert_magics(magics, incoming);
    let names = magic_names(magics);
    if incoming.len() == 0 {
        assert forall|i: int| 0 <= i < magics.len() implies #[trigger] after[i] == magic_merged(
            magics,
            incoming,
            i,
        ) by {
            assert(!magic_names(incoming).contains(magics[i].name));
        }
    } else {
        let earlier = incoming.drop_last();
        let m = incoming.last();
        let inner = upsert_magics(magics, earlier);
        law_magics_merged(magics, earlier);
        lemma_magic_names_after(inner, m);
        let inner_names = magic_names(inner);
        let after_names = magic_names(after);
        assert forall|i: int| 0 <= i < names.len() implies names[i] == inner_names[i] by {
            assert(inner[i] == magic_merged(magics, earlier, i));
        }
        lemma_position_prefix(names, inner_names, m.name);
        lemma_position_of(inner_names, m.name);
        lemma_position_of(names, m.name);
        lemma_magic_names_grow(incoming, m.name);
        if !magic_names(earlier).contains(m.name) {
            lemma_fragments_absent(earlier, m.name);
        }
        assert(fragments_named(incoming, m.name) == fragments_named(
            earlier,
            m.name,
        ).union_prefer_right(m.cloud_cfg));
        match position_of(inner_names, m.name) {
            Some(p) => {
                assert(after == inner.update(p, magic_updated(inner[p], m)));
                assert(after_names == inner_names);
                assert forall|i: int| 0 <= i < magics.len() implies #[trigger] after[i]
                    == magic_merged(magics, incoming, i) by {
                    assert(inner[i] == magic_merged(magics, earlier, i));
                    lemma_magic_names_grow(incoming, magics[i].name);
                    if i == p {
                        assert(position_of(names, m.name) == Some(p));
                        assert(magics[p].cloud_cfg.union_prefer_right(
                            fragments_named(earlier, m.name),
                        ).union_prefer_right(m.cloud_cfg) =~= magics[p].cloud_cfg.union_prefer_right(
                            fragments_named(incoming, m.name),
                        ));
                        assert(magics[p].cloud_cfg.union_prefer_right(m.cloud_cfg)
                            =~= magics[p].cloud_cfg.union_prefer_right(
                            Map::<Seq<char>, Seq<char>>::empty().union_prefer_right(m.cloud_cfg),
                        ));
                    } else {
                        if magics[i].name == m.name {
                            assert(position_of(names, magics[i].name) != Some(i)) by {
                                lemma_position_of(names, magics[i].name);
                                if position_of(names, m.name) == Some(i) {
                                    assert(position_of(inner_names, m.name) == Some(i));
                                }
                            }
                        }
                    }
                }
                assert forall|i: int| magics.len() <= i < after.len() implies #[trigger] magic_appended(
                    magics,
                    incoming,
                    after,
                    i,
                ) by {
                    assert(magic_appended(magics, earlier, inner, i));
                    lemma_magic_names_grow(incoming, inner[i].name);
                    if i == p {
                        assert(inner[p].cloud_cfg.union_prefer_right(m.cloud_cfg)
                            =~= fragments_named(incoming, m.name));
                    } else {
                        assert(inner[i].name != m.name);
                    }
                }
                assert forall|k: int| 0 <= k < incoming.len() implies after_names.contains(
                    #[trigger] incoming[k].name,
                ) by {
                    if k < earlier.len() {
                        assert(earlier[k] == incoming[k]);
                    } else {
                        assert(inner_names[p] == m.name);
                    }
                }
                if forall|k: int|
                    0 <= k < incoming.len() ==> names.contains(#[trigger] incoming[k].name) {
                    assert forall|k: int| 0 <= k < earlier.len() implies names.contains(
                        #[trigger] earlier[k].name,
                    ) by {
                        assert(earlier[k] == incoming[k]);
                    }
                }
            },
            None => {
                assert(after == inner.push(m));
                assert(after_names == inner_names.push(m.name));
                assert(!names.contains(m.name)) by {
                    if names.contains(m.name) {
                        let j = choose|j: int| 0 <= j < names.len() && names[j] == m.name;
                        assert(inner_names[j] == m.name);
                    }
                }
                assert(!magic_names(earlier).contains(m.name)) by {
                    if magic_names(earlier).contains(m.name) {
                        let k = choose|k: int|
                            0 <= k < earlier.len() && magic_names(earlier)[k] == m.name;
                        assert(inner_names.contains(earlier[k].name));
                        let j = choose|j: int|
                            0 <= j < inner_names.len() && inner_names[j] == earlier[k].name;
                        assert(inner_names[j] == m.name);
                    }
                }
                assert forall|i: int| 0 <= i < magics.len() implies #[trigger] after[i]
                    == magic_merged(magics, incoming, i) by {
                    assert(inner[i] == magic_merged(magics, earlier, i));
                    lemma_magic_names_grow(incoming, magics[i].name);
                    assert(names[i] == magics[i].name);
                }
                assert forall|i: int| magics.len() <= i < after.len() implies #[trigger] magic_appended(
                    magics,
                    incoming,
                    after,
                    i,
                ) by {
                    if i < inner.len() {
                        assert(magic_appended(magics, earlier, inner, i));
                        lemma_magic_names_grow(incoming, inner[i].name);
                        lemma_position_push(inner_names, m.name, inner[i].name);
                        assert(inner_names[i] == inner[i].name);
                    } else {
                        lemma_position_push(inner_names, m.name, m.name);
                        assert(Map::<Seq<char>, Seq<char>>::empty().union_prefer_right(m.cloud_cfg)
                            =~= m.cloud_cfg);
                    }
                }
                assert forall|k: int| 0 <= k < incoming.len() implies after_names.contains(
                    #[trigger] incoming[k].name,
                ) by {
                    if k < earlier.len() {
                        assert(earlier[k] == incoming[k]);
                        let j = choose|j: int|
                            0 <= j < inner_names.len() && inner_names[j] == earlier[k].name;
                        assert(after_names[j] == incoming[k].name);
                    } else {
                        assert(after_names[inner.len() as int] == m.name);
                    }
                }
                assert(!(forall|k: int|
                    0 <= k < incoming.len() ==> names.contains(#[trigger] incoming[k].name))) by {
                    assert(incoming[incoming.len() - 1].name == m.name);
                }
            },
        }
    }
}

/// Merging the same magics once more changes nothing.
proof fn lemma_magics_idempotent(magics: Seq<CloudMagicView>, incoming: Seq<CloudMagicView>)
    ensures
        upsert_magics(upsert_magics(magics, incoming), incoming) == upsert_magics(magics, incoming),
{
    let once = upsert_magics(magics, incoming);
    let twice = upsert_magics(once, incoming);
    law_magics_merged(magics, incoming);
    law_magics_merged(once, incoming);
    let names = magic_names(magics);
    let once_names = magic_names(once);
    assert(twice.len() == once.len());
    assert forall|i: int| 0 <= i < names.len() implies names[i] == once_names[i] by {
        assert(once[i] == magic_merged(magics, incoming, i));
    }
    assert forall|i: int| 0 <= i < once.len() implies twice[i] == once[i] by {
        assert(twice[i] == magic_merged(once, incoming, i));
        let n = once[i].name;
        if position_of(once_names, n) == Some(i) && magic_names(incoming).contains(n) {
            let brought = fragments_named(incoming, n);
            if i < magics.len() {
                assert(once[i] == magic_merged(magics, incoming, i));
                lemma_position_prefix(names, once_names, n);
                lemma_position_of(names, n);
                assert(names[i] == n);
                assert(position_of(names, n) == Some(i));
                assert(magics[i].cloud_cfg.union_prefer_right(brought).union_prefer_right(brought)
                    =~= magics[i].cloud_cfg.union_prefer_right(brought));
            } else {
                assert(magic_appended(magics, incoming, once, i));
                assert(brought.union_prefer_right(brought) =~= brought);
            }
        }
    }
    assert(twice =~= once);
}

/// Merging is idempotent: a configuration into which `other` has been merged is not changed by
/// merging `other` into it once more, for every `other` in which no two buckets of one cloud
/// source share a name.
pub proof fn law_merge_idempotent(config: ConfigView, other: ConfigView)
    requires
        bucket_names_unique(other),
    ensures
        config.merge(other).merge(other) == config.merge(other),
{
    lemma_sources_idempotent(config.cloud_source, other.cloud_source);
    lemma_magics_idempotent(config.cloud_magics, other.cloud_magics);
}

} // verus!
