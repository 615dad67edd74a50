//! The configuration: cloud sources with their buckets, and the magics.
//!
//! Every lookup takes the first entry that goes by the name asked for.

use crate::names::{first_named, names_of, position_of, Named};
use crate::replicate::Replicate;
use crate::str_map::StrMap;
use crate::text::{is_first_index, split_at_first, split_once};
use vstd::prelude::*;
use vstd::string::*;

verus! {

/// One bucket's connection parameters within a cloud source.
#[derive(Debug)]
pub struct BucketSource {
    pub name: String,
    pub domain: Option<String>,
    pub cdn_domain: Option<String>,
    /// Where to go when this bucket cannot be used: `<cloud source>.<bucket>`.
    pub fallback: Option<String>,
    /// The provider family.
    pub cloud: Option<String>,
    /// The tag of the cloud source that owns the bucket.
    pub cloud_name: Option<String>,
    pub grayscale: Option<i64>,
}

/// One storage account of a provider family, with its buckets in order.
#[derive(Debug)]
pub struct CloudSource {
    pub name: String,
    /// The provider family.
    pub cloud: Option<String>,
    pub grayscale: Option<i64>,
    pub buckets: Vec<BucketSource>,
}

/// A named transform: for each provider family the query fragment that performs it.
#[derive(Debug)]
pub struct CloudMagic {
    pub name: String,
    pub cloud_cfg: StrMap<String>,
}

/// Cloud sources and magics together.
#[derive(Debug)]
pub struct Config {
    pub cloud_source: Vec<CloudSource>,
    pub cloud_magics: Vec<CloudMagic>,
}

pub struct BucketSourceView {
    pub name: Seq<char>,
    pub domain: Option<Seq<char>>,
    pub cdn_domain: Option<Seq<char>>,
    pub fallback: Option<Seq<char>>,
    pub cloud: Option<Seq<char>>,
    pub cloud_name: Option<Seq<char>>,
    pub grayscale: Option<i64>,
}

pub struct CloudSourceView {
    pub name: Seq<char>,
    pub cloud: Option<Seq<char>>,
    pub grayscale: Option<i64>,
    pub buckets: Seq<BucketSourceView>,
}

pub struct CloudMagicView {
    pub name: Seq<char>,
    pub cloud_cfg: Map<Seq<char>, Seq<char>>,
}

pub struct ConfigView {
    pub cloud_source: Seq<CloudSourceView>,
    pub cloud_magics: Seq<CloudMagicView>,
}

impl DeepView for BucketSource {
    type V = BucketSourceView;

    open spec fn deep_view(&self) -> BucketSourceView {
        BucketSourceView {
            name: self.name@,
            domain: self.domain.deep_view(),
            cdn_domain: self.cdn_domain.deep_view(),
            fallback: self.fallback.deep_view(),
            cloud: self.cloud.deep_view(),
            cloud_name: self.cloud_name.deep_view(),
            grayscale: self.grayscale,
        }
    }
}

impl View for BucketSource {
    type V = BucketSourceView;

    open spec fn view(&self) -> BucketSourceView {
        self.deep_view()
    }
}

impl DeepView for CloudSource {
    type V = CloudSourceView;

    open spec fn deep_view(&self) -> CloudSourceView {
        CloudSourceView {
            name: self.name@,
            cloud: self.cloud.deep_view(),
            grayscale: self.grayscale,
            buckets: self.buckets.deep_view(),
        }
    }
}

impl View for CloudSource {
    type V = CloudSourceView;

    open spec fn view(&self) -> CloudSourceView {
        self.deep_view()
    }
}

impl DeepView for CloudMagic {
    type V = CloudMagicView;

    open spec fn deep_view(&self) -> CloudMagicView {
        CloudMagicView { name: self.name@, cloud_cfg: self.cloud_cfg@ }
    }
}

impl View for CloudMagic {
    type V = CloudMagicView;

    open spec fn view(&self) -> CloudMagicView {
        self.deep_view()
    }
}

impl DeepView for Config {
    type V = ConfigView;

    open spec fn deep_view(&self) -> ConfigView {
        ConfigView {
            cloud_source: self.cloud_source.deep_view(),
            cloud_magics: self.cloud_magics.deep_view(),
        }
    }
}

impl View for Config {
    type V = ConfigView;

    open spec fn view(&self) -> ConfigView {
        self.deep_view()
    }
}

impl Replicate for BucketSource {
    fn replicate(&self) -> (r: Self) {
        BucketSource {
            name: self.name.clone(),
            domain: self.domain.replicate(),
            cdn_domain: self.cdn_domain.replicate(),
            fallback: self.fallback.replicate(),
            cloud: self.cloud.replicate(),
            cloud_name: self.cloud_name.replicate(),
            grayscale: self.grayscale,
        }
    }
}

impl Replicate for CloudSource {
    fn replicate(&self) -> (r: Self) {
        CloudSource {
            name: self.name.clone(),
            cloud: self.cloud.replicate(),
            grayscale: self.grayscale,
            buckets: self.buckets.replicate(),
        }
    }
}

impl Replicate for CloudMagic {
    fn replicate(&self) -> (r: Self) {
        CloudMagic { name: self.name.clone(), cloud_cfg: self.cloud_cfg.replicate() }
    }
}

impl Replicate for Config {
    fn replicate(&self) -> (r: Self) {
        Config {
            cloud_source: self.cloud_source.replicate(),
            cloud_magics: self.cloud_magics.replicate(),
        }
    }
}

impl Clone for BucketSource {
    fn clone(&self) -> (r: Self)
        ensures
            r@ == self@,
    {
        self.replicate()
    }
}

impl Clone for CloudSource {
    fn clone(&self) -> (r: Self)
        ensures
            r@ == self@,
    {
        self.replicate()
    }
}

impl Clone for CloudMagic {
    fn clone(&self) -> (r: Self)
        ensures
            r@ == self@,
    {
        self.replicate()
    }
}

impl Clone for Config {
    fn clone(&self) -> (r: Self)
        ensures
            r@ == self@,
    {
        self.replicate()
    }
}

/// The names of the buckets, in order.
pub open spec fn bucket_names(buckets: Seq<BucketSourceView>) -> Seq<Seq<char>> {
    buckets.map_values(|b: BucketSourceView| b.name)
}

/// The names of the cloud sources, in order.
pub open spec fn source_names(sources: Seq<CloudSourceView>) -> Seq<Seq<char>> {
    sources.map_values(|s: CloudSourceView| s.name)
}

/// The names of the magics, in order.
pub open spec fn magic_names(magics: Seq<CloudMagicView>) -> Seq<Seq<char>> {
    magics.map_values(|m: CloudMagicView| m.name)
}

/// The first bucket that goes by `name`.
pub open spec fn bucket_named(buckets: Seq<BucketSourceView>, name: Seq<char>) -> Option<
    BucketSourceView,
> {
    match position_of(bucket_names(buckets), name) {
        Some(i) => Some(buckets[i]),
        None => None,
    }
}

/// The bucket as it is once `incoming` has been merged into it: the three addresses are
/// `incoming`'s, the rest stays.
pub open spec fn bucket_updated(
    existing: BucketSourceView,
    incoming: BucketSourceView,
) -> BucketSourceView {
    BucketSourceView {
        domain: incoming.domain,
        cdn_domain: incoming.cdn_domain,
        fallback: incoming.fallback,
        ..existing
    }
}

/// `buckets` with `b` merged in: over the first bucket of its name, or at the end.
pub open spec fn upsert_bucket(
    buckets: Seq<BucketSourceView>,
    b: BucketSourceView,
) -> Seq<BucketSourceView> {
    match position_of(bucket_names(buckets), b.name) {
        Some(i) => buckets.update(i, bucket_updated(buckets[i], b)),
        None => buckets.push(b),
    }
}

/// `buckets` with each of `incoming` merged in, first to last.
pub open spec fn upsert_buckets(
    buckets: Seq<BucketSourceView>,
    incoming: Seq<BucketSourceView>,
) -> Seq<BucketSourceView>
    decreases incoming.len(),
{
    if incoming.len() == 0 {
        buckets
    } else {
        upsert_bucket(upsert_buckets(buckets, incoming.drop_last()), incoming.last())
    }
}

/// The source as it is once `incoming` has been merged into it.
pub open spec fn source_updated(
    existing: CloudSourceView,
    incoming: CloudSourceView,
) -> CloudSourceView {
    CloudSourceView {
        name: existing.name,
        cloud: incoming.cloud,
        grayscale: incoming.grayscale,
        buckets: upsert_buckets(existing.buckets, incoming.buckets),
    }
}

/// `sources` with `s` merged in: over the first source of its name, or at the end.
pub open spec fn upsert_source(
    sources: Seq<CloudSourceView>,
    s: CloudSourceView,
) -> Seq<CloudSourceView> {
    match position_of(source_names(sources), s.name) {
        Some(i) => sources.update(i, source_updated(sources[i], s)),
        None => sources.push(s),
    }
}

/// `sources` with each of `incoming` merged in, first to last.
pub open spec fn upsert_sources(
    sources: Seq<CloudSourceView>,
    incoming: Seq<CloudSourceView>,
) -> Seq<CloudSourceView>
    decreases incoming.len(),
{
    if incoming.len() == 0 {
        sources
    } else {
        upsert_source(upsert_sources(sources, incoming.drop_last()), incoming.last())
    }
}

/// The magic as it is once `incoming` has been merged into it: `incoming`'s fragments win.
pub open spec fn magic_updated(existing: CloudMagicView, incoming: CloudMagicView) -> CloudMagicView {
    CloudMagicView {
        name: existing.name,
        cloud_cfg: existing.cloud_cfg.union_prefer_right(incoming.cloud_cfg),
    }
}

/// `magics` with `m` merged in: into the first magic of its name, or at the end.
pub open spec fn upsert_magic(magics: Seq<CloudMagicView>, m: CloudMagicView) -> Seq<
    CloudMagicView,
> {
    match position_of(magic_names(magics), m.name) {
        Some(i) => magics.update(i, magic_updated(magics[i], m)),
        None => magics.push(m),
    }
}

/// `magics` with each of `incoming` merged in, first to last.
pub open spec fn upsert_magics(
    magics: Seq<CloudMagicView>,
    incoming: Seq<CloudMagicView>,
) -> Seq<CloudMagicView>
    decreases incoming.len(),
{
    if incoming.len() == 0 {
        magics
    } else {
        upsert_magic(upsert_magics(magics, incoming.drop_last()), incoming.last())
    }
}

impl CloudSourceView {
    /// The first bucket of this source that goes by `name`.
    pub open spec fn bucket(self, name: Seq<char>) -> Option<BucketSourceView> {
        bucket_named(self.buckets, name)
    }
}

impl ConfigView {
    /// The first cloud source that goes by `name`.
    pub open spec fn source(self, name: Seq<char>) -> Option<CloudSourceView> {
        match position_of(source_names(self.cloud_source), name) {
            Some(i) => Some(self.cloud_source[i]),
            None => None,
        }
    }

    /// The first magic that goes by `name`.
    pub open spec fn magic(self, name: Seq<char>) -> Option<CloudMagicView> {
        match position_of(magic_names(self.cloud_magics), name) {
            Some(i) => Some(self.cloud_magics[i]),
            None => None,
        }
    }

    /// The bucket `bucket_name` of the cloud source `cloud_name`.
    pub open spec fn bucket(self, cloud_name: Seq<char>, bucket_name: Seq<char>) -> Option<
        BucketSourceView,
    > {
        match self.source(cloud_name) {
            Some(s) => s.bucket(bucket_name),
            None => None,
        }
    }

    /// The fragment of the magic `magic_name` for the provider family `cloud`.
    pub open spec fn magic_cfg(self, magic_name: Seq<char>, cloud: Seq<char>) -> Option<
        Seq<char>,
    > {
        match self.magic(magic_name) {
            Some(m) => if m.cloud_cfg.contains_key(cloud) {
                Some(m.cloud_cfg[cloud])
            } else {
                None
            },
            None => None,
        }
    }

    /// Where a fallback pointer leads: the cloud source before the first `.` and, in it, the
    /// bucket behind that `.`.
    pub open spec fn pointer_target(self, pointer: Seq<char>) -> Option<
        (CloudSourceView, BucketSourceView),
    > {
        match split_at_first(pointer, '.') {
            Some((cloud_name, bucket_name)) => match self.source(cloud_name) {
                Some(s) => match s.bucket(bucket_name) {
                    Some(b) => Some((s, b)),
                    None => None,
                },
                None => None,
            },
            None => None,
        }
    }

    /// The cloud source and bucket that the bucket `bucket_name` of `source` falls back to.
    pub open spec fn resolve_fallback(self, source: CloudSourceView, bucket_name: Seq<char>) -> Option<
        (CloudSourceView, BucketSourceView),
    > {
        match source.bucket(bucket_name) {
            Some(b) => match b.fallback {
                Some(pointer) => self.pointer_target(pointer),
                None => None,
            },
            None => None,
        }
    }

    /// This configuration with `other` merged into it.
    pub open spec fn merge(self, other: ConfigView) -> ConfigView {
        ConfigView {
            cloud_source: upsert_sources(self.cloud_source, other.cloud_source),
            cloud_magics: upsert_magics(self.cloud_magics, other.cloud_magics),
        }
    }
}

impl Named for BucketSource {
    open spec fn spec_name(&self) -> Seq<char> {
        self.name@
    }

    fn named(&self) -> (r: &String) {
        &self.name
    }
}

impl Named for CloudSource {
    open spec fn spec_name(&self) -> Seq<char> {
        self.name@
    }

    fn named(&self) -> (r: &String) {
        &self.name
    }
}

impl Named for CloudMagic {
    open spec fn spec_name(&self) -> Seq<char> {
        self.name@
    }

    fn named(&self) -> (r: &String) {
        &self.name
    }
}

/// The position of the first bucket that goes by `name`.
pub fn bucket_index(buckets: &Vec<BucketSource>, name: &str) -> (r: Option<usize>)
    ensures
        match r {
            Some(i) => i < buckets.len() && position_of(bucket_names(buckets.deep_view()), name@)
                == Some(i as int),
            None => position_of(bucket_names(buckets.deep_view()), name@) is None,
        },
{
    proof {
        assert(names_of(buckets@) =~= bucket_names(buckets.deep_view()));
    }
    first_named(buckets, name)
}

/// The position of the first cloud source that goes by `name`.
pub fn source_index(sources: &Vec<CloudSource>, name: &str) -> (r: Option<usize>)
    ensures
        match r {
            Some(i) => i < sources.len() && position_of(source_names(sources.deep_view()), name@)
                == Some(i as int),
            None => position_of(source_names(sources.deep_view()), name@) is None,
        },
{
    proof {
        assert(names_of(sources@) =~= source_names(sources.deep_view()));
    }
    first_named(sources, name)
}

/// The position of the first magic that goes by `name`.
pub fn magic_index(magics: &Vec<CloudMagic>, name: &str) -> (r: Option<usize>)
    ensures
        match r {
            Some(i) => i < magics.len() && position_of(magic_names(magics.deep_view()), name@)
                == Some(i as int),
            None => position_of(magic_names(magics.deep_view()), name@) is None,
        },
{
    proof {
        assert(names_of(magics@) =~= magic_names(magics.deep_view()));
    }
    first_named(magics, name)
}

/// Merges each of `incoming` into `buckets`, first to last.
fn merge_buckets(buckets: &mut Vec<BucketSource>, incoming: &Vec<BucketSource>)
    ensures
        final(buckets).deep_view() == upsert_buckets(old(buckets).deep_view(), incoming.deep_view()),
{
    let mut i: usize = 0;
    while i < incoming.len()
        invariant
            i <= incoming.len(),
            buckets.deep_view() == upsert_buckets(
                old(buckets).deep_view(),
                incoming.deep_view().take(i as int),
            ),
        decreases incoming.len() - i,
    {
        let b = &incoming[i];
        let ghost before = buckets.deep_view();
        proof {
            let next = incoming.deep_view().take(i + 1);
            assert(next.drop_last() =~= incoming.deep_view().take(i as int));
            assert(next.last() == b@);
        }
        match bucket_index(buckets, b.name.as_str()) {
            Some(k) => {
                buckets[k].domain = b.domain.replicate();
                buckets[k].cdn_domain = b.cdn_domain.replicate();
                buckets[k].fallback = b.fallback.replicate();
                proof {
                    assert(buckets.deep_view() =~= before.update(
                        k as int,
                        bucket_updated(before[k as int], b@),
                    ));
                }
            },
            None => {
                buckets.push(b.replicate());
                proof {
                    assert(buckets.deep_view() =~= before.push(b@));
                }
            },
        }
        i += 1;
    }
    proof {
        assert(incoming.deep_view().take(i as int) =~= incoming.deep_view());
    }
}

impl CloudMagic {
    /// The fragment for the provider family `cloud`.
    pub fn get_magic(&self, cloud: &str) -> (r: Option<&str>)
        ensures
            match r {
                Some(q) => self@.cloud_cfg.contains_key(cloud@) && q@ == self@.cloud_cfg[cloud@],
                None => !self@.cloud_cfg.contains_key(cloud@),
            },
    {
        match self.cloud_cfg.get(cloud) {
            Some(q) => Some(q.as_str()),
            None => None,
        }
    }
}

/// Whether two optional texts hold the same.
fn same_opt_text(a: &Option<String>, b: &Option<String>) -> (r: bool)
    ensures
        r == (a.deep_view() == b.deep_view()),
{
    match (a, b) {
        (Some(x), Some(y)) => *x == *y,
        (None, None) => true,
        _ => false,
    }
}

impl BucketSource {
    /// Whether both buckets hold the same in every field.
    pub fn same_as(&self, other: &BucketSource) -> (r: bool)
        ensures
            r == (self@ == other@),
    {
        let grayscale = match (self.grayscale, other.grayscale) {
            (Some(x), Some(y)) => x == y,
            (None, None) => true,
            _ => false,
        };
        self.name == other.name && same_opt_text(&self.domain, &other.domain) && same_opt_text(
            &self.cdn_domain,
            &other.cdn_domain,
        ) && same_opt_text(&self.fallback, &other.fallback) && same_opt_text(
            &self.cloud,
            &other.cloud,
        ) && same_opt_text(&self.cloud_name, &other.cloud_name) && grayscale
    }
}

impl CloudSource {
    /// The first bucket of this source that goes by `name`.
    pub fn get_bucket(&self, name: &str) -> (r: Option<&BucketSource>)
        ensures
            r.deep_view() == self@.bucket(name@),
    {
        match bucket_index(&self.buckets, name) {
            Some(i) => Some(&self.buckets[i]),
            None => None,
        }
    }
}

impl Config {
    /// A configuration without cloud sources and magics.
    pub fn empty() -> (r: Self)
        ensures
            r@.cloud_source.len() == 0,
            r@.cloud_magics.len() == 0,
    {
        Config { cloud_source: Vec::new(), cloud_magics: Vec::new() }
    }

    /// The bucket `bucket_name` of the cloud source `cloud_name`.
    pub fn get_bucket(&self, cloud_name: &str, bucket_name: &str) -> (r: Option<&BucketSource>)
        ensures
            r.deep_view() == self@.bucket(cloud_name@, bucket_name@),
    {
        match self.get_cloud_source(cloud_name) {
            Some(source) => source.get_bucket(bucket_name),
            None => None,
        }
    }

    /// The first cloud source that goes by `name`.
    pub fn get_cloud_source(&self, name: &str) -> (r: Option<&CloudSource>)
        ensures
            r.deep_view() == self@.source(name@),
    {
        match source_index(&self.cloud_source, name) {
            Some(i) => Some(&self.cloud_source[i]),
            None => None,
        }
    }

    /// The first magic that goes by `name`.
    pub fn get_magic(&self, name: &str) -> (r: Option<&CloudMagic>)
        ensures
            r.deep_view() == self@.magic(name@),
    {
        match magic_index(&self.cloud_magics, name) {
            Some(i) => Some(&self.cloud_magics[i]),
            None => None,
        }
    }

    /// The fragment of the magic `magic_name` for the provider family `cloud`.
    pub fn get_magic_cfg(&self, magic_name: &str, cloud: &str) -> (r: Option<&str>)
        ensures
            r.deep_view() == self@.magic_cfg(magic_name@, cloud@),
    {
        match self.get_magic(magic_name) {
            Some(magic) => magic.get_magic(cloud),
            None => None,
        }
    }

    /// The cloud source and bucket that the bucket `bucket_name` of `bucket_source` falls back
    /// to. There is none where the bucket is unknown, has no fallback pointer, the pointer
    /// holds no `.`, or what it names is not in this configuration.
    pub fn resolve_fallback(&self, bucket_source: &CloudSource, bucket_name: &str) -> (r: Option<
        (&CloudSource, &BucketSource),
    >)
        ensures
            match r {
                Some((s, b)) => self@.resolve_fallback(bucket_source@, bucket_name@) == Some(
                    (s@, b@),
                ),
                None => self@.resolve_fallback(bucket_source@, bucket_name@) is None,
            },
            bucket_source@.bucket(bucket_name@) matches Some(b) && b.fallback matches Some(pointer)
                && !pointer.contains('.') ==> r is None,
    {
        proof {
            lemma_pointer_without_dot(self@, bucket_source@, bucket_name@);
        }
        let bucket = match bucket_source.get_bucket(bucket_name) {
            Some(bucket) => bucket,
            None => {
                return None;
            },
        };
        match &bucket.fallback {
            Some(fallback) => self.pointer_target(fallback.as_str()),
            None => None,
        }
    }

    /// Where a fallback pointer leads.
    pub fn pointer_target(&self, pointer: &str) -> (r: Option<(&CloudSource, &BucketSource)>)
        ensures
            match r {
                Some((s, b)) => self@.pointer_target(pointer@) == Some((s@, b@)),
                None => self@.pointer_target(pointer@) is None,
            },
    {
        let (cloud_name, bucket_name) = match split_once(pointer, '.') {
            Some(parts) => parts,
            None => {
                return None;
            },
        };
        let source = match self.get_cloud_source(cloud_name) {
            Some(source) => source,
            None => {
                return None;
            },
        };
        match source.get_bucket(bucket_name) {
            Some(bucket) => Some((source, bucket)),
            None => None,
        }
    }

    /// The direct domain of a bucket.
    pub fn get_bucket_domain(&self, cloud_name: &str, bucket_name: &str) -> (r: Option<&str>)
        ensures
            r.deep_view() == match self@.bucket(cloud_name@, bucket_name@) {
                Some(b) => b.domain,
                None => None,
            },
    {
        match self.get_bucket(cloud_name, bucket_name) {
            Some(bucket) => match &bucket.domain {
                Some(domain) => Some(domain.as_str()),
                None => None,
            },
            None => None,
        }
    }

    /// The CDN domain of a bucket.
    pub fn get_bucket_cdn_domain(&self, cloud_name: &str, bucket_name: &str) -> (r: Option<&str>)
        ensures
            r.deep_view() == match self@.bucket(cloud_name@, bucket_name@) {
                Some(b) => b.cdn_domain,
                None => None,
            },
    {
        match self.get_bucket(cloud_name, bucket_name) {
            Some(bucket) => match &bucket.cdn_domain {
                Some(domain) => Some(domain.as_str()),
                None => None,
            },
            None => None,
        }
    }

    /// The provider family of a cloud source.
    pub fn get_cloud_type(&self, cloud_name: &str) -> (r: Option<&str>)
        ensures
            r.deep_view() == match self@.source(cloud_name@) {
                Some(s) => s.cloud,
                None => None,
            },
    {
        match self.get_cloud_source(cloud_name) {
            Some(source) => match &source.cloud {
                Some(cloud) => Some(cloud.as_str()),
                None => None,
            },
            None => None,
        }
    }

    /// The grayscale percentage of a cloud source.
    pub fn get_grayscale(&self, cloud_name: &str) -> (r: Option<i64>)
        ensures
            r == match self@.source(cloud_name@) {
                Some(s) => s.grayscale,
                None => None,
            },
    {
        match self.get_cloud_source(cloud_name) {
            Some(source) => source.grayscale,
            None => None,
        }
    }

    /// Merges `other` into this configuration. A cloud source of `other` overwrites the
    /// provider family and grayscale of the first source of its name, and each of its buckets
    /// overwrites the three addresses of the first bucket of its name there; a magic of `other`
    /// adds its fragments to the first magic of its name. What has no namesake is appended.
    pub fn merge(&mut self, other: &Config)
        ensures
            final(self)@ == old(self)@.merge(other@),
    {
        let mut i: usize = 0;
        while i < other.cloud_source.len()
            invariant
                i <= other.cloud_source.len(),
                self.cloud_source.deep_view() == upsert_sources(
                    old(self).cloud_source.deep_view(),
                    other.cloud_source.deep_view().take(i as int),
                ),
                self.cloud_magics == old(self).cloud_magics,
            decreases other.cloud_source.len() - i,
        {
            let source = &other.cloud_source[i];
            let ghost before = self.cloud_source.deep_view();
            proof {
                let next = other.cloud_source.deep_view().take(i + 1);
                assert(next.drop_last() =~= other.cloud_source.deep_view().take(i as int));
                assert(next.last() == source@);
            }
            match source_index(&self.cloud_source, source.name.as_str()) {
                Some(k) => {
                    self.cloud_source[k].cloud = source.cloud.replicate();
                    self.cloud_source[k].grayscale = source.grayscale;
                    merge_buckets(&mut self.cloud_source[k].buckets, &source.buckets);
                    proof {
                        assert(self.cloud_source.deep_view() =~= before.update(
                            k as int,
                            source_updated(before[k as int], source@),
                        ));
                    }
                },
                None => {
                    self.cloud_source.push(source.replicate());
                    proof {
                        assert(self.cloud_source.deep_view() =~= before.push(source@));
                    }
                },
            }
            i += 1;
        }
        proof {
            assert(other.cloud_source.deep_view().take(i as int) =~= other.cloud_source.deep_view());
        }
        let mut j: usize = 0;
        while j < other.cloud_magics.len()
            invariant
                j <= other.cloud_magics.len(),
                self.cloud_source.deep_view() == upsert_sources(
                    old(self).cloud_source.deep_view(),
                    other.cloud_source.deep_view(),
                ),
                self.cloud_magics.deep_view() == upsert_magics(
                    old(self).cloud_magics.deep_view(),
                    other.cloud_magics.deep_view().take(j as int),
                ),
            decreases other.cloud_magics.len() - j,
        {
            let magic = &other.cloud_magics[j];
            let ghost before = self.cloud_magics.deep_view();
            proof {
                let next = other.cloud_magics.deep_view().take(j + 1);
                assert(next.drop_last() =~= other.cloud_magics.deep_view().take(j as int));
                assert(next.last() == magic@);
            }
            match magic_index(&self.cloud_magics, magic.name.as_str()) {
                Some(k) => {
                    self.cloud_magics[k].cloud_cfg.extend(&magic.cloud_cfg);
                    proof {
                        assert(self.cloud_magics.deep_view() =~= before.update(
                            k as int,
                            magic_updated(before[k as int], magic@),
                        ));
                    }
                },
                None => {
                    self.cloud_magics.push(magic.replicate());
                    proof {
                        assert(self.cloud_magics.deep_view() =~= before.push(magic@));
                    }
                },
            }
            j += 1;
        }
        proof {
            assert(other.cloud_magics.deep_view().take(j as int) =~= other.cloud_magics.deep_view());
        }
    }
}

/// A fallback pointer without a `.` leads nowhere.
pub proof fn lemma_pointer_without_dot(
    config: ConfigView,
    source: CloudSourceView,
    bucket_name: Seq<char>,
)
    ensures
        source.bucket(bucket_name) matches Some(b) && b.fallback matches Some(pointer)
            && !pointer.contains('.') ==> config.resolve_fallback(source, bucket_name) is None,
{
    if source.bucket(bucket_name) matches Some(b) && b.fallback matches Some(pointer)
        && !pointer.contains('.') {
        let pointer = source.bucket(bucket_name).unwrap().fallback.unwrap();
        assert forall|i: int| !is_first_index(pointer, '.', i) by {
            if is_first_index(pointer, '.', i) {
                assert(pointer[i] == '.');
                assert(pointer.contains('.'));
            }
        }
        assert(split_at_first(pointer, '.') is None);
    }
}

} // verus!
