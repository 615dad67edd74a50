//! What the indexes of a loaded configuration hold.

use crate::cloud_client::{
    branch_index, index_with_bucket, index_with_buckets, index_with_sources, magic_lookup,
    magics_by_name, BranchRows,
};
use crate::config::{BucketSourceView, CloudMagicView, CloudSourceView, ConfigView};
use crate::merge_laws::last_bucket_named;
use vstd::prelude::*;

verus! {

/// The bucket that the index holds for a bucket name and a cloud source.
pub open spec fn index_entry(index: BranchRows, bucket: Seq<char>, cloud: Seq<char>) -> Option<
    BucketSourceView,
> {
    if index.contains_key(bucket) && index[bucket].contains_key(cloud) {
        Some(index[bucket][cloud])
    } else {
        None
    }
}

/// The last bucket named `bucket` in the last cloud source named `cloud` that holds one.
pub open spec fn last_entry(
    sources: Seq<CloudSourceView>,
    bucket: Seq<char>,
    cloud: Seq<char>,
) -> Option<BucketSourceView>
    decreases sources.len(),
{
    if sources.len() == 0 {
        None
    } else {
        let s = sources.last();
        if s.name == cloud && last_bucket_named(s.buckets, bucket) is Some {
            last_bucket_named(s.buckets, bucket)
        } else {
            last_entry(sources.drop_last(), bucket, cloud)
        }
    }
}

/// The last magic that goes by `name`.
pub open spec fn last_magic_named(magics: Seq<CloudMagicView>, name: Seq<char>) -> Option<
    CloudMagicView,
>
    decreases magics.len(),
{
    if magics.len() == 0 {
        None
    } else if magics.last().name == name {
        Some(magics.last())
    } else {
        last_magic_named(magics.drop_last(), name)
    }
}

proof fn lemma_entry_after_bucket(
    index: BranchRows,
    cloud_name: Seq<char>,
    b: BucketSourceView,
    bucket: Seq<char>,
    cloud: Seq<char>,
)
    ensures
        index_entry(index_with_bucket(index, cloud_name, b), bucket, cloud) == if bucket == b.name
            && cloud == cloud_name {
            Some(b)
        } else {
            index_entry(index, bucket, cloud)
        },
{
}

proof fn lemma_entry_after_buckets(
    index: BranchRows,
    cloud_name: Seq<char>,
    buckets: Seq<BucketSourceView>,
    bucket: Seq<char>,
    cloud: Seq<char>,
)
    ensures
        index_entry(index_with_buckets(index, cloud_name, buckets), bucket, cloud) == if cloud
            == cloud_name && last_bucket_named(buckets, bucket) is Some {
            last_bucket_named(buckets, bucket)
        } else {
            index_entry(index, bucket, cloud)
        },
    decreases buckets.len(),
{
    if buckets.len() > 0 {
        lemma_entry_after_buckets(index, cloud_name, buckets.drop_last(), bucket, cloud);
        lemma_entry_after_bucket(
            index_with_buckets(index, cloud_name, buckets.drop_last()),
            cloud_name,
            buckets.last(),
            bucket,
            cloud,
        );
    }
}

proof fn lemma_entry_after_sources(
    index: BranchRows,
    sources: Seq<CloudSourceView>,
    bucket: Seq<char>,
    cloud: Seq<char>,
)
    ensures
        index_entry(index_with_sources(index, sources), bucket, cloud) == match last_entry(
            sources,
            bucket,
            cloud,
        ) {
            Some(b) => Some(b),
            None => index_entry(index, bucket, cloud),
        },
    decreases sources.len(),
{
    if sources.len() > 0 {
        lemma_entry_after_sources(index, sources.drop_last(), bucket, cloud);
        lemma_entry_after_buckets(
            index_with_sources(index, sources.drop_last()),
            sources.last().name,
            sources.last().buckets,
            bucket,
            cloud,
        );
    }
}

/// The branch index holds, for a bucket name and a cloud source, the last bucket of that name
/// in the last cloud source of that name that holds one: a later entry takes the place of an
/// earlier one.
pub proof fn law_branch_index_holds_last(config: ConfigView, bucket: Seq<char>, cloud: Seq<char>)
    ensures
        index_entry(branch_index(config), bucket, cloud) == last_entry(
            config.cloud_source,
            bucket,
            cloud,
        ),
{
    lemma_entry_after_sources(Map::empty(), config.cloud_source, bucket, cloud);
}

proof fn lemma_magics_by_name(
    map: Map<Seq<char>, CloudMagicView>,
    magics: Seq<CloudMagicView>,
    name: Seq<char>,
)
    ensures
        match last_magic_named(magics, name) {
            Some(m) => magics_by_name(map, magics).contains_key(name) && magics_by_name(
                map,
                magics,
            )[name] == m,
            None => magics_by_name(map, magics).contains_key(name) == map.contains_key(name) && (
            map.contains_key(name) ==> magics_by_name(map, magics)[name] == map[name]),
        },
    decreases magics.len(),
{
    if magics.len() > 0 {
        lemma_magics_by_name(map, magics.drop_last(), name);
    }
}

/// A magic of the remote document stands in the lookup over one of the local document that
/// goes by the same name; a magic that only the local document holds stands there too.
pub proof fn law_remote_magic_wins(remote: ConfigView, local: ConfigView, name: Seq<char>)
    ensures
        match (
            last_magic_named(remote.cloud_magics, name),
            last_magic_named(local.cloud_magics, name),
        ) {
            (Some(m), _) => magic_lookup(remote, local).contains_key(name) && magic_lookup(
                remote,
                local,
            )[name] == m,
            (None, Some(m)) => magic_lookup(remote, local).contains_key(name) && magic_lookup(
                remote,
                local,
            )[name] == m,
            (None, None) => !magic_lookup(remote, local).contains_key(name),
        },
{
    lemma_magics_by_name(Map::empty(), local.cloud_magics, name);
    lemma_magics_by_name(
        magics_by_name(Map::empty(), local.cloud_magics),
        remote.cloud_magics,
        name,
    );
}

} // verus!
