//! The client's state: the loaded configuration with its indexes, the registry of provider
//! strategies and the registry of requests kept for a manual retry.

use crate::config::{
    BucketSource, BucketSourceView, CloudMagic, CloudMagicView, CloudSource, CloudSourceView,
    Config, ConfigView,
};
use crate::error::{result_view, XError, XErrorView, XResult};
use crate::replicate::Replicate;
use crate::str_map::StrMap;
use crate::text::{find_char, first_index_of, starts_with, starts_with_char};
use crate::ambient::draw_below;
use vstd::prelude::*;
use vstd::string::*;

verus! {

/// One upload as it was asked for.
#[derive(Debug)]
pub struct UploadOpts {
    /// The bucket that the upload is bound to at the start.
    pub bucket_source: BucketSource,
    pub bucket: String,
    pub filename: String,
    pub file_path: String,
    /// The storage key: the cloud source's tag, `/`, the file name.
    pub key: String,
    pub up_id: i64,
    pub disable_retry: bool,
    pub manual_retry: bool,
}

pub struct UploadOptsView {
    pub bucket_source: BucketSourceView,
    pub bucket: Seq<char>,
    pub filename: Seq<char>,
    pub file_path: Seq<char>,
    pub key: Seq<char>,
    pub up_id: i64,
    pub disable_retry: bool,
    pub manual_retry: bool,
}

impl DeepView for UploadOpts {
    type V = UploadOptsView;

    open spec fn deep_view(&self) -> UploadOptsView {
        UploadOptsView {
            bucket_source: self.bucket_source@,
            bucket: self.bucket@,
            filename: self.filename@,
            file_path: self.file_path@,
            key: self.key@,
            up_id: self.up_id,
            disable_retry: self.disable_retry,
            manual_retry: self.manual_retry,
        }
    }
}

impl View for UploadOpts {
    type V = UploadOptsView;

    open spec fn view(&self) -> UploadOptsView {
        self.deep_view()
    }
}

impl Replicate for UploadOpts {
    fn replicate(&self) -> (r: Self) {
        UploadOpts {
            bucket_source: self.bucket_source.replicate(),
            bucket: self.bucket.clone(),
            filename: self.filename.clone(),
            file_path: self.file_path.clone(),
            key: self.key.clone(),
            up_id: self.up_id,
            disable_retry: self.disable_retry,
            manual_retry: self.manual_retry,
        }
    }
}

impl Clone for UploadOpts {
    fn clone(&self) -> (r: Self)
        ensures
            r@ == self@,
    {
        self.replicate()
    }
}

/// The rows of the branch index: for a bucket name, its bucket in each cloud source.
pub type BranchRows = Map<Seq<char>, Map<Seq<char>, BucketSourceView>>;

/// `index` with the bucket `b` of the cloud source `cloud_name` entered.
pub open spec fn index_with_bucket(
    index: BranchRows,
    cloud_name: Seq<char>,
    b: BucketSourceView,
) -> BranchRows {
    let row = if index.contains_key(b.name) {
        index[b.name]
    } else {
        Map::empty()
    };
    index.insert(b.name, row.insert(cloud_name, b))
}

/// `index` with the buckets of one cloud source entered, first to last.
pub open spec fn index_with_buckets(
    index: BranchRows,
    cloud_name: Seq<char>,
    buckets: Seq<BucketSourceView>,
) -> BranchRows
    decreases buckets.len(),
{
    if buckets.len() == 0 {
        index
    } else {
        index_with_bucket(
            index_with_buckets(index, cloud_name, buckets.drop_last()),
            cloud_name,
            buckets.last(),
        )
    }
}

/// `index` with the buckets of each cloud source entered, first to last: a later bucket takes
/// the place of an earlier one of the same name in a cloud source of the same name.
pub open spec fn index_with_sources(index: BranchRows, sources: Seq<CloudSourceView>) -> BranchRows
    decreases sources.len(),
{
    if sources.len() == 0 {
        index
    } else {
        index_with_buckets(
            index_with_sources(index, sources.drop_last()),
            sources.last().name,
            sources.last().buckets,
        )
    }
}

/// The branch index of a configuration.
pub open spec fn branch_index(config: ConfigView) -> BranchRows {
    index_with_sources(Map::empty(), config.cloud_source)
}

/// `map` with each of `sources` entered under its name, first to last.
pub open spec fn sources_by_name(
    map: Map<Seq<char>, CloudSourceView>,
    sources: Seq<CloudSourceView>,
) -> Map<Seq<char>, CloudSourceView>
    decreases sources.len(),
{
    if sources.len() == 0 {
        map
    } else {
        sources_by_name(map, sources.drop_last()).insert(sources.last().name, sources.last())
    }
}

/// `map` with each of `magics` entered under its name, first to last.
pub open spec fn magics_by_name(
    map: Map<Seq<char>, CloudMagicView>,
    magics: Seq<CloudMagicView>,
) -> Map<Seq<char>, CloudMagicView>
    decreases magics.len(),
{
    if magics.len() == 0 {
        map
    } else {
        magics_by_name(map, magics.drop_last()).insert(magics.last().name, magics.last())
    }
}

/// The magics of both documents by name: where both hold a name, the remote one stands.
pub open spec fn magic_lookup(remote: ConfigView, local: ConfigView) -> Map<
    Seq<char>,
    CloudMagicView,
> {
    magics_by_name(magics_by_name(Map::empty(), local.cloud_magics), remote.cloud_magics)
}

/// What a document stands for: itself, or the empty configuration where it could not be read.
pub open spec fn document(parsed: Option<ConfigView>) -> ConfigView {
    match parsed {
        Some(c) => c,
        None => ConfigView { cloud_source: Seq::empty(), cloud_magics: Seq::empty() },
    }
}

/// Whether the grayscale gate sends a bucket's traffic elsewhere: the bucket has no domain, or
/// it has a grayscale value that the draw does not stay under.
pub open spec fn gate_refuses(b: BucketSourceView, draw: int) -> bool {
    b.domain is None || (b.grayscale matches Some(scale) && !(draw < scale))
}

/// The bucket that an upload to `bucket` in `cloud_name` goes to. With `auto_feedback`, a bucket
/// that the grayscale gate refuses gives way to the one that its fallback pointer names, if
/// that resolves.
pub open spec fn current_bucket(
    config: Option<ConfigView>,
    bucket: Seq<char>,
    cloud_name: Seq<char>,
    auto_feedback: bool,
    draw: int,
) -> Result<BucketSourceView, XErrorView> {
    match config {
        None => Err(XErrorView::InvalidConfig),
        Some(c) => match c.source(cloud_name) {
            None => Err(XErrorView::CloudNotFound),
            Some(s) => match s.bucket(bucket) {
                None => Err(XErrorView::BucketNotFound(bucket)),
                Some(b) => if auto_feedback && gate_refuses(b, draw) {
                    match c.resolve_fallback(s, b.name) {
                        Some((_, fallback)) => Ok(fallback),
                        None => Ok(b),
                    }
                } else {
                    Ok(b)
                },
            },
        },
    }
}

/// The bucket that goes by `bucket` in the cloud source `cloud_name`, with that cloud source
/// and the configuration.
pub open spec fn direct_bucket(
    config: Option<ConfigView>,
    bucket: Seq<char>,
    cloud_name: Seq<char>,
) -> Option<(ConfigView, CloudSourceView, BucketSourceView)> {
    match config {
        Some(c) => match c.source(cloud_name) {
            Some(s) => match s.bucket(bucket) {
                Some(b) => Some((c, s, b)),
                None => None,
            },
            None => None,
        },
        None => None,
    }
}

/// The bucket that takes the place of `b` where the grayscale gate refuses it: the one that
/// its fallback pointer names, or `b` itself where the pointer does not resolve.
pub open spec fn hop_target(
    c: ConfigView,
    s: CloudSourceView,
    b: BucketSourceView,
) -> BucketSourceView {
    match c.resolve_fallback(s, b.name) {
        Some((_, fallback)) => fallback,
        None => b,
    }
}

/// The key without one leading `/` that stands before a `_`.
pub open spec fn tagged_part(key: Seq<char>) -> Seq<char> {
    if key.len() >= 2 && key[0] == '/' && key[1] == '_' {
        key.subrange(1, key.len() as int)
    } else {
        key
    }
}

/// The cloud source's tag that a storage key begins with: what stands before the first `/` of
/// a key that starts with `_`.
pub open spec fn cloud_tag(key: Seq<char>) -> Option<Seq<char>> {
    let k = tagged_part(key);
    if k.len() > 0 && k[0] == '_' {
        match first_index_of(k, '/') {
            Some(i) => Some(k.subrange(0, i)),
            None => None,
        }
    } else {
        None
    }
}

/// The storage key without its cloud source's tag.
pub open spec fn untagged_key(key: Seq<char>) -> Seq<char> {
    let k = tagged_part(key);
    if k.len() > 0 && k[0] == '_' {
        match first_index_of(k, '/') {
            Some(i) => k.subrange(i + 1, k.len() as int),
            None => k,
        }
    } else {
        k
    }
}

/// The name under which a cloud source is kept: with a leading `_`.
pub open spec fn source_tag(cloud_name: Seq<char>) -> Seq<char> {
    if cloud_name.len() > 0 && cloud_name[0] == '_' {
        cloud_name
    } else {
        seq!['_'] + cloud_name
    }
}

/// The number that the grayscale gate draws: one from 0 to 99.
pub fn draw_gate() -> (r: i64)
    ensures
        0 <= r < 100,
{
    draw_below(100)
}

/// The part of a key that the tag is looked for in.
fn tagged_str(key: &str) -> (r: &str)
    ensures
        r@ == tagged_part(key@),
{
    proof {
        reveal_strlit("/_");
    }
    if starts_with(key, "/_") {
        assert(key@.subrange(0, 2) == "/_"@);
        assert(key@[0] == key@.subrange(0, 2)[0] && key@[1] == key@.subrange(0, 2)[1]);
        let n = key.unicode_len();
        key.substring_char(1, n)
    } else {
        assert(!(key@.len() >= 2 && key@[0] == '/' && key@[1] == '_')) by {
            if key@.len() >= 2 && key@[0] == '/' && key@[1] == '_' {
                assert(key@.subrange(0, 2) =~= "/_"@);
            }
        }
        key
    }
}

/// The state of the client.
pub struct CloudClient {
    /// The remote document as it was loaded last.
    pub config: Option<Config>,
    /// The local document as it was loaded last.
    pub local_config: Option<Config>,
    /// The cloud sources by name.
    pub cloud_source_map: StrMap<CloudSource>,
    /// The magics by name.
    pub cloud_magics_map: StrMap<CloudMagic>,
    /// For a bucket name, its bucket in each cloud source.
    pub branch_cloud_source: StrMap<StrMap<BucketSource>>,
    /// For a provider family, the handle of its strategy.
    pub cloud_strategy_map: StrMap<usize>,
    /// For a file path, the request to repeat on a manual retry.
    pub manual_retry_map: StrMap<UploadOpts>,
}

impl CloudClient {
    /// A client without configuration, strategies and kept requests.
    pub fn new() -> (r: Self)
        ensures
            r.config is None,
            r.local_config is None,
            r.cloud_source_map@ == Map::<Seq<char>, CloudSourceView>::empty(),
            r.cloud_magics_map@ == Map::<Seq<char>, CloudMagicView>::empty(),
            r.branch_cloud_source@ == Map::<Seq<char>, Map<Seq<char>, BucketSourceView>>::empty(),
            r.cloud_strategy_map@ == Map::<Seq<char>, usize>::empty(),
            r.manual_retry_map@ == Map::<Seq<char>, UploadOptsView>::empty(),
    {
        CloudClient {
            config: None,
            local_config: None,
            cloud_source_map: StrMap::new(),
            cloud_magics_map: StrMap::new(),
            branch_cloud_source: StrMap::new(),
            cloud_strategy_map: StrMap::new(),
            manual_retry_map: StrMap::new(),
        }
    }

    /// Registers the strategy with the handle `strategy` for the provider family `name`, in
    /// place of one registered for it before.
    pub fn load_strategy(&mut self, name: &str, strategy: usize)
        ensures
            final(self).cloud_strategy_map@ == old(self).cloud_strategy_map@.insert(name@, strategy),
            final(self).config == old(self).config,
            final(self).local_config == old(self).local_config,
            final(self).cloud_source_map == old(self).cloud_source_map,
            final(self).cloud_magics_map == old(self).cloud_magics_map,
            final(self).branch_cloud_source == old(self).branch_cloud_source,
            final(self).manual_retry_map == old(self).manual_retry_map,
    {
        self.cloud_strategy_map.insert(String::from_str(name), strategy);
    }

    /// Loads one document as both the remote and the local one. `remote` is not read.
    pub fn init(&mut self, remote: Option<String>, local_config: Option<Config>)
        ensures
            final(self).config.deep_view() == Some(document(local_config.deep_view())),
            final(self).local_config.deep_view() == Some(document(local_config.deep_view())),
            final(self).branch_cloud_source@ == branch_index(document(local_config.deep_view())),
            final(self).cloud_source_map@ == sources_by_name(
                Map::empty(),
                document(local_config.deep_view()).cloud_source,
            ),
            final(self).cloud_magics_map@ == magic_lookup(
                document(local_config.deep_view()),
                document(local_config.deep_view()),
            ),
            final(self).cloud_strategy_map == old(self).cloud_strategy_map,
            final(self).manual_retry_map == old(self).manual_retry_map,
    {
        let copy = local_config.replicate();
        self.load_conf(local_config, copy);
    }

    /// Replaces the configuration by what the two documents hold. A document that could not be
    /// read counts as empty. The indexes are built anew: the branch index and the cloud sources
    /// by name from the remote document, the magics from both.
    pub fn load_conf(&mut self, config: Option<Config>, local_config: Option<Config>)
        ensures
            final(self).config.deep_view() == Some(document(config.deep_view())),
            final(self).local_config.deep_view() == Some(document(local_config.deep_view())),
            final(self).branch_cloud_source@ == branch_index(document(config.deep_view())),
            final(self).cloud_source_map@ == sources_by_name(
                Map::empty(),
                document(config.deep_view()).cloud_source,
            ),
            final(self).cloud_magics_map@ == magic_lookup(
                document(config.deep_view()),
                document(local_config.deep_view()),
            ),
            final(self).cloud_strategy_map == old(self).cloud_strategy_map,
            final(self).manual_retry_map == old(self).manual_retry_map,
    {
        let ghost remote = document(config.deep_view());
        let ghost local = document(local_config.deep_view());
        let remote_doc = match config {
            Some(c) => c,
            None => Config::empty(),
        };
        let local_doc = match local_config {
            Some(c) => c,
            None => Config::empty(),
        };
        proof {
            assert(remote_doc@.cloud_source =~= remote.cloud_source);
            assert(remote_doc@.cloud_magics =~= remote.cloud_magics);
            assert(local_doc@.cloud_magics =~= local.cloud_magics);
            assert(local_doc@.cloud_source =~= local.cloud_source);
            assert(remote_doc@ == remote);
            assert(local_doc@ == local);
        }

        let mut branch: StrMap<StrMap<BucketSource>> = StrMap::new();
        let mut by_name: StrMap<CloudSource> = StrMap::new();
        let mut i: usize = 0;
        while i < remote_doc.cloud_source.len()
            invariant
                i <= remote_doc.cloud_source.len(),
                remote == remote_doc@,
                branch@ == index_with_sources(Map::empty(), remote.cloud_source.take(i as int)),
                by_name@ == sources_by_name(Map::empty(), remote.cloud_source.take(i as int)),
            decreases remote_doc.cloud_source.len() - i,
        {
            let source = &remote_doc.cloud_source[i];
            let ghost start = branch@;
            proof {
                let next = remote.cloud_source.take(i + 1);
                assert(next.drop_last() =~= remote.cloud_source.take(i as int));
                assert(next.last() == source@);
            }
            let mut j: usize = 0;
            while j < source.buckets.len()
                invariant
                    j <= source.buckets.len(),
                    branch@ == index_with_buckets(start, source@.name, source@.buckets.take(j as int)),
                decreases source.buckets.len() - j,
            {
                let bucket = &source.buckets[j];
                proof {
                    let next = source@.buckets.take(j + 1);
                    assert(next.drop_last() =~= source@.buckets.take(j as int));
                    assert(next.last() == bucket@);
                }
                let mut row = match branch.get(bucket.name.as_str()) {
                    Some(row) => row.replicate(),
                    None => StrMap::new(),
                };
                row.insert(source.name.clone(), bucket.replicate());
                branch.insert(bucket.name.clone(), row);
                j += 1;
            }
            proof {
                assert(source@.buckets.take(j as int) =~= source@.buckets);
            }
            by_name.insert(source.name.clone(), source.replicate());
            i += 1;
        }
        proof {
            assert(remote.cloud_source.take(i as int) =~= remote.cloud_source);
        }

        let mut magics: StrMap<CloudMagic> = StrMap::new();
        let mut k: usize = 0;
        while k < local_doc.cloud_magics.len()
            invariant
                k <= local_doc.cloud_magics.len(),
                local == local_doc@,
                magics@ == magics_by_name(Map::empty(), local.cloud_magics.take(k as int)),
            decreases local_doc.cloud_magics.len() - k,
        {
            let magic = &local_doc.cloud_magics[k];
            proof {
                let next = local.cloud_magics.take(k + 1);
                assert(next.drop_last() =~= local.cloud_magics.take(k as int));
                assert(next.last() == magic@);
            }
            magics.insert(magic.name.clone(), magic.replicate());
            k += 1;
        }
        proof {
            assert(local.cloud_magics.take(k as int) =~= local.cloud_magics);
        }
        let ghost from_local = magics@;
        let mut m: usize = 0;
        while m < remote_doc.cloud_magics.len()
            invariant
                m <= remote_doc.cloud_magics.len(),
                remote == remote_doc@,
                magics@ == magics_by_name(from_local, remote.cloud_magics.take(m as int)),
            decreases remote_doc.cloud_magics.len() - m,
        {
            let magic = &remote_doc.cloud_magics[m];
            proof {
                let next = remote.cloud_magics.take(m + 1);
                assert(next.drop_last() =~= remote.cloud_magics.take(m as int));
                assert(next.last() == magic@);
            }
            magics.insert(magic.name.clone(), magic.replicate());
            m += 1;
        }
        proof {
            assert(remote.cloud_magics.take(m as int) =~= remote.cloud_magics);
        }

        self.config = Some(remote_doc);
        self.local_config = Some(local_doc);
        self.branch_cloud_source = branch;
        self.cloud_source_map = by_name;
        self.cloud_magics_map = magics;
    }

    /// The bucket that an upload to `bucket` in `cloud_name` goes to, for the number `draw`
    /// that the grayscale gate drew.
    pub fn bucket_source_for_draw(
        &self,
        bucket: &str,
        cloud_name: &str,
        auto_feedback: bool,
        draw: i64,
    ) -> (r: XResult<&BucketSource>)
        ensures
            result_view(r) == current_bucket(
                self.config.deep_view(),
                bucket@,
                cloud_name@,
                auto_feedback,
                draw as int,
            ),
    {
        let config = match &self.config {
            Some(config) => config,
            None => {
                return Err(XError::InvalidConfig);
            },
        };
        let cloud_source = match config.get_cloud_source(cloud_name) {
            Some(cloud_source) => cloud_source,
            None => {
                return Err(XError::CloudNotFound);
            },
        };
        let bucket_source = match cloud_source.get_bucket(bucket) {
            Some(bucket_source) => bucket_source,
            None => {
                return Err(XError::BucketNotFound(String::from_str(bucket)));
            },
        };
        if auto_feedback {
            let refused = bucket_source.domain.is_none() || match bucket_source.grayscale {
                Some(scale) => !(draw < scale),
                None => false,
            };
            if refused {
                if let Some((_, fallback)) = config.resolve_fallback(
                    cloud_source,
                    bucket_source.name.as_str(),
                ) {
                    return Ok(fallback);
                }
            }
        }
        Ok(bucket_source)
    }

    /// The bucket that an upload to `bucket` in `cloud_name` goes to. With `auto_feedback` the
    /// grayscale gate draws a number from 0 to 99, and a bucket that it refuses gives way to
    /// the one that its fallback pointer names.
    ///
    /// A bucket with a domain and a grayscale of 100 is never left; one with a grayscale of 0 is
    /// always left where its fallback pointer resolves.
    pub fn current_bucket_source(&self, bucket: &str, cloud_name: &str, auto_feedback: bool) -> (r:
        XResult<&BucketSource>)
        ensures
            exists|draw: int|
                0 <= draw < 100 && result_view(r) == #[trigger] current_bucket(
                    self.config.deep_view(),
                    bucket@,
                    cloud_name@,
                    auto_feedback,
                    draw,
                ),
            !auto_feedback ==> result_view(r) == current_bucket(
                self.config.deep_view(),
                bucket@,
                cloud_name@,
                false,
                0,
            ),
            match direct_bucket(self.config.deep_view(), bucket@, cloud_name@) {
                Some((c, s, b)) => {
                    &&& b.domain is Some && b.grayscale == Some(100i64) ==> result_view(r) == Ok::<
                        BucketSourceView,
                        XErrorView,
                    >(b)
                    &&& auto_feedback && b.grayscale == Some(0i64) ==> result_view(r) == Ok::<
                        BucketSourceView,
                        XErrorView,
                    >(hop_target(c, s, b))
                },
                None => true,
            },
    {
        let draw = if auto_feedback {
            draw_gate()
        } else {
            0
        };
        self.bucket_source_for_draw(bucket, cloud_name, auto_feedback, draw)
    }

    /// The buckets that go by the name `bucket`, by cloud source.
    pub fn current_branch_cloud_source(&self, bucket: &str) -> (r: XResult<&StrMap<BucketSource>>)
        ensures
            match r {
                Ok(row) => self.branch_cloud_source@.contains_key(bucket@) && row@
                    == self.branch_cloud_source@[bucket@],
                Err(e) => !self.branch_cloud_source@.contains_key(bucket@) && e@
                    == XErrorView::BucketNotFound(bucket@),
            },
    {
        match self.branch_cloud_source.get(bucket) {
            Some(row) => Ok(row),
            None => Err(XError::BucketNotFound(String::from_str(bucket))),
        }
    }

    /// The handle of the strategy that is registered for the provider family `cloud`.
    pub fn get_cloud_strategy(&self, cloud: &str) -> (r: XResult<usize>)
        ensures
            match r {
                Ok(handle) => self.cloud_strategy_map@.contains_key(cloud@) && handle
                    == self.cloud_strategy_map@[cloud@],
                Err(e) => !self.cloud_strategy_map@.contains_key(cloud@) && e@
                    == XErrorView::CloudNotFound,
            },
    {
        match self.cloud_strategy_map.get(cloud) {
            Some(handle) => Ok(*handle),
            None => Err(XError::CloudNotFound),
        }
    }

    /// The cloud source that is kept under `cloud_name`, with or without its leading `_`.
    pub fn current_cloud_source(&self, cloud_name: &str) -> (r: XResult<CloudSource>)
        ensures
            match r {
                Ok(source) => self.cloud_source_map@.contains_key(source_tag(cloud_name@))
                    && source@ == self.cloud_source_map@[source_tag(cloud_name@)],
                Err(e) => !self.cloud_source_map@.contains_key(source_tag(cloud_name@)) && e@
                    == XErrorView::CloudNotFound,
            },
    {
        let found = if starts_with_char(cloud_name, '_') {
            self.cloud_source_map.get(cloud_name)
        } else {
            proof {
                reveal_strlit("_");
                assert("_"@ =~= seq!['_']);
            }
            let name = String::from_str("_").concat(cloud_name);
            self.cloud_source_map.get(name.as_str())
        };
        match found {
            Some(source) => Ok(source.replicate()),
            None => Err(XError::CloudNotFound),
        }
    }

    /// Whether the storage key begins with a cloud source's tag.
    pub fn is_xclouder(&self, key: &str) -> (r: bool)
        ensures
            r == cloud_tag(key@) is Some,
    {
        self.take_cloud(key).is_some()
    }

    /// The cloud source's tag that the storage key begins with. One leading `/` before the tag
    /// is passed over.
    pub fn take_cloud(&self, key: &str) -> (r: Option<String>)
        ensures
            r.deep_view() == cloud_tag(key@),
    {
        let k = tagged_str(key);
        if starts_with_char(k, '_') {
            if let Some(i) = find_char(k, '/') {
                return Some(String::from_str(k.substring_char(0, i)));
            }
        }
        None
    }

    /// The storage key without the cloud source's tag that it begins with.
    pub fn simple_key(&self, key: &str) -> (r: String)
        ensures
            r@ == untagged_key(key@),
    {
        let k = tagged_str(key);
        if starts_with_char(k, '_') {
            if let Some(i) = find_char(k, '/') {
                let n = k.unicode_len();
                return String::from_str(k.substring_char(i + 1, n));
            }
        }
        String::from_str(k)
    }

    /// The magics that go by the names asked for, in that order. Every name must be known.
    pub fn current_magics(&self, magics: &[&str]) -> (r: XResult<Vec<&CloudMagic>>)
        ensures
            match r {
                Ok(found) => {
                    &&& found.len() == magics.len()
                    &&& forall|i: int|
                        0 <= i < magics.len() ==> self.cloud_magics_map@.contains_key(
                            #[trigger] magics[i]@,
                        )
                    &&& forall|i: int|
                        0 <= i < magics.len() ==> (#[trigger] found[i])@
                            == self.cloud_magics_map@[magics[i]@]
                },
                Err(e) => {
                    &&& e@ == XErrorView::InvalidConfig
                    &&& exists|i: int|
                        0 <= i < magics.len() && !self.cloud_magics_map@.contains_key(
                            #[trigger] magics[i]@,
                        )
                },
            },
    {
        let mut found: Vec<&CloudMagic> = Vec::new();
        let mut i: usize = 0;
        while i < magics.len()
            invariant
                i <= magics.len(),
                found.len() == i,
                forall|j: int|
                    0 <= j < i ==> self.cloud_magics_map@.contains_key(#[trigger] magics[j]@),
                forall|j: int|
                    0 <= j < i ==> (#[trigger] found[j])@ == self.cloud_magics_map@[magics[j]@],
            decreases magics.len() - i,
        {
            match self.cloud_magics_map.get(magics[i]) {
                Some(magic) => {
                    found.push(magic);
                },
                None => {
                    return Err(XError::InvalidConfig);
                },
            }
            i += 1;
        }
        Ok(found)
    }

    /// Whether the grayscale gate lets a bucket with the value `scale` through: it draws a
    /// number from 0 to 99 and lets through where the number is below `scale`.
    pub fn when_percent(scale: i64) -> (r: bool)
        ensures
            exists|draw: int| 0 <= draw < 100 && r == (#[trigger] admits(scale, draw)),
            scale >= 100 ==> r,
            scale <= 0 ==> !r,
    {
        let draw = draw_gate();
        assert(admits(scale, draw as int) == (draw < scale));
        draw < scale
    }
}

/// Whatever number from 0 to 99 the grayscale gate draws: a bucket with a domain and a
/// grayscale of 100 is never left for its fallback, and a bucket with a grayscale of 0 is
/// always left for its fallback where the pointer resolves.
pub proof fn law_grayscale_gate(
    config: Option<ConfigView>,
    bucket: Seq<char>,
    cloud_name: Seq<char>,
    draw: int,
)
    requires
        0 <= draw < 100,
    ensures
        match direct_bucket(config, bucket, cloud_name) {
            Some((c, s, b)) => {
                &&& b.domain is Some && b.grayscale == Some(100i64) ==> current_bucket(
                    config,
                    bucket,
                    cloud_name,
                    true,
                    draw,
                ) == Ok::<BucketSourceView, XErrorView>(b)
                &&& b.grayscale == Some(0i64) ==> current_bucket(
                    config,
                    bucket,
                    cloud_name,
                    true,
                    draw,
                ) == Ok::<BucketSourceView, XErrorView>(hop_target(c, s, b))
            },
            None => true,
        },
{
}

/// Whether the grayscale gate lets through for the number drawn.
pub open spec fn admits(scale: i64, draw: int) -> bool {
    draw < scale
}

} // verus!
