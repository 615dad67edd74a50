//! A client for uploads to several cloud storage providers.
//!
//! From a configuration of cloud sources and their buckets the client picks the bucket of an
//! upload, decides after each failure whether and where to try again, and turns storage keys
//! back into public addresses.
//!
//! The library computes and decides; it performs no transfer itself. An upload is a sequence
//! of actions that `Clouder::upload` and `Clouder::upload_step` hand out one by one.

use vstd::prelude::*;
use vstd::string::*;

mod ambient;
pub mod cloud_client;
pub mod config;
pub mod error;
pub mod events;
pub mod fallback;
pub mod index_laws;
pub mod json;
pub mod merge_laws;
pub mod names;
pub mod network;
pub mod replicate;
pub mod resolver;
pub mod retry_laws;
pub mod str_map;
pub mod strategy;
pub mod text;
pub mod upload;
pub mod utils;

pub use crate::cloud_client::{CloudClient, UploadOpts};
pub use crate::config::{BucketSource, CloudMagic, CloudSource, Config};
pub use crate::error::{XError, XResult};
pub use crate::network::NetworkInfo;
pub use crate::str_map::StrMap;
pub use crate::strategy::{RequestArgs, UploadArgs, UrlRes};
pub use crate::upload::{UploadAction, UploadEvent, UploadStart, UploadState};

use crate::cloud_client::{current_bucket, UploadOptsView};
use crate::config::{BucketSourceView, CloudMagicView, CloudSourceView};
use crate::error::XErrorView;
use crate::resolver::resolved;
use crate::upload::{begun, pending, registry_after, registry_begun, state_wf, stepped};

verus! {

/// The cloud source that an upload goes to where the caller names none.
pub open spec fn default_cloud() -> Seq<char> {
    "_main"@
}

/// What a client is made with: the provider families of its strategies. The position of a
/// family in the list is the handle of its strategy.
#[derive(Debug)]
pub struct ClouderOptions {
    pub strategy: Vec<String>,
}

/// How one upload is to be carried out.
#[derive(Debug)]
pub struct UploadOptions {
    /// The cloud source; `_main` where none is given.
    pub cloud_name: Option<String>,
    pub disable_retry: bool,
    pub manual_retry: bool,
    pub openid: Option<String>,
}

/// The client.
pub struct Clouder {
    client: CloudClient,
}

/// The registry in which each of the provider families has its position as the handle; where
/// a family occurs twice, the later position stands.
pub open spec fn registry_of(names: Seq<Seq<char>>) -> Map<Seq<char>, usize>
    decreases names.len(),
{
    if names.len() == 0 {
        Map::empty()
    } else {
        registry_of(names.drop_last()).insert(names.last(), (names.len() - 1) as usize)
    }
}

/// The magics that go by the names, in the names' order.
pub open spec fn requested_magics(
    known: Map<Seq<char>, CloudMagicView>,
    names: Seq<Seq<char>>,
) -> Seq<CloudMagicView> {
    Seq::new(names.len(), |i: int| known[names[i]])
}

/// Whether every one of the names is a known magic's.
pub open spec fn all_known(known: Map<Seq<char>, CloudMagicView>, names: Seq<Seq<char>>) -> bool {
    forall|i: int| 0 <= i < names.len() ==> known.contains_key(#[trigger] names[i])
}

/// The cloud source that an upload goes to.
pub open spec fn target_cloud(cloud_name: Option<Seq<char>>) -> Seq<char> {
    match cloud_name {
        Some(name) => name,
        None => default_cloud(),
    }
}

/// The request of an upload to the bucket `bucket_source`: its key is the cloud source, `/`,
/// the file name.
pub open spec fn request_for(
    bucket_source: BucketSourceView,
    bucket: Seq<char>,
    file_path: Seq<char>,
    filename: Seq<char>,
    cloud_name: Option<Seq<char>>,
    disable_retry: bool,
    manual_retry: bool,
    up_id: i64,
) -> UploadOptsView {
    UploadOptsView {
        bucket_source,
        bucket,
        filename,
        file_path,
        key: target_cloud(cloud_name) + seq!['/'] + filename,
        up_id,
        disable_retry,
        manual_retry,
    }
}

/// The request of an upload, for the number `draw` and the id `up_id`: bound to the bucket that
/// the upload goes to, or the error that says what is missing.
pub open spec fn upload_request(
    client: CloudClient,
    bucket: Seq<char>,
    file_path: Seq<char>,
    filename: Seq<char>,
    opts: UploadOptions,
    draw: int,
    up_id: i64,
) -> Result<UploadOptsView, XErrorView> {
    match current_bucket(
        client.config.deep_view(),
        bucket,
        target_cloud(opts.cloud_name.deep_view()),
        true,
        draw,
    ) {
        Ok(bucket_source) => Ok(
            request_for(
                bucket_source,
                bucket,
                file_path,
                filename,
                opts.cloud_name.deep_view(),
                opts.disable_retry,
                opts.manual_retry,
                up_id,
            ),
        ),
        Err(e) => Err(e),
    }
}

/// What `upload_with` hands back and leaves behind, for the number `draw` and the id `up_id`:
/// where the request can be made, the machine's first state and action for it, with the
/// registry as the start of the upload leaves it; else the error that says what is missing.
pub open spec fn upload_started(
    before: CloudClient,
    after: CloudClient,
    bucket: Seq<char>,
    file_path: Seq<char>,
    filename: Seq<char>,
    opts: UploadOptions,
    draw: int,
    up_id: i64,
    r: XResult<UploadStart>,
) -> bool {
    match upload_request(before, bucket, file_path, filename, opts, draw, up_id) {
        Ok(request) => {
            &&& r matches Ok(start)
            &&& start.announce@ == request
            &&& start.state@ == begun(before.env(), before.manual_retry_map@, request)
            &&& start.action@ == pending(start.state@)
            &&& state_wf(start.state@)
            &&& after.manual_retry_map@ == registry_begun(
                before.env(),
                before.manual_retry_map@,
                request,
            )
        },
        Err(e) => r matches Err(error) && error@ == e && after.manual_retry_map
            == before.manual_retry_map,
    }
}

impl Clouder {
    /// The state of the client.
    pub closed spec fn client(&self) -> CloudClient {
        self.client
    }

    /// A client with a strategy registered for each of the provider families, and without a
    /// configuration.
    pub fn new(opts: ClouderOptions) -> (r: Self)
        ensures
            r.client().cloud_strategy_map@ == registry_of(opts.strategy.deep_view()),
            r.client().config is None,
            r.client().local_config is None,
            r.client().cloud_source_map@ == Map::<Seq<char>, CloudSourceView>::empty(),
            r.client().manual_retry_map@ == Map::<Seq<char>, UploadOptsView>::empty(),
            r.client().branch_cloud_source@ == Map::<
                Seq<char>,
                Map<Seq<char>, BucketSourceView>,
            >::empty(),
            r.client().cloud_magics_map@ == Map::<Seq<char>, CloudMagicView>::empty(),
    {
        let mut client = CloudClient::new();
        let mut i: usize = 0;
        proof {
            assert(opts.strategy.deep_view().take(0) =~= Seq::<Seq<char>>::empty());
        }
        while i < opts.strategy.len()
            invariant
                i <= opts.strategy.len(),
                client.cloud_strategy_map@ == registry_of(opts.strategy.deep_view().take(i as int)),
                client.config is None,
                client.local_config is None,
                client.cloud_source_map@ == Map::<Seq<char>, CloudSourceView>::empty(),
                client.manual_retry_map@ == Map::<Seq<char>, UploadOptsView>::empty(),
                client.branch_cloud_source@ == Map::<
                    Seq<char>,
                    Map<Seq<char>, BucketSourceView>,
                >::empty(),
                client.cloud_magics_map@ == Map::<Seq<char>, CloudMagicView>::empty(),
            decreases opts.strategy.len() - i,
        {
            proof {
                let next = opts.strategy.deep_view().take(i + 1);
                assert(next.drop_last() =~= opts.strategy.deep_view().take(i as int));
                assert(next.last() == opts.strategy[i as int]@);
            }
            client.load_strategy(opts.strategy[i].as_str(), i);
            i += 1;
        }
        proof {
            assert(opts.strategy.deep_view().take(i as int) =~= opts.strategy.deep_view());
        }
        Clouder { client }
    }

    /// The state of the client.
    pub fn inner(&self) -> (r: &CloudClient)
        ensures
            *r == self.client(),
    {
        &self.client
    }

    /// The magics by name.
    pub fn xcm(&self) -> (r: &StrMap<CloudMagic>)
        ensures
            r@ == self.client().cloud_magics_map@,
    {
        &self.client.cloud_magics_map
    }

    /// For a bucket name, its bucket in each cloud source.
    pub fn xc(&self) -> (r: &StrMap<StrMap<BucketSource>>)
        ensures
            r@ == self.client().branch_cloud_source@,
    {
        &self.client.branch_cloud_source
    }

    /// Loads a configuration. See `CloudClient::init`.
    pub fn init(&mut self, remote: Option<String>, config: Option<Config>)
        ensures
            final(self).client().config.deep_view() == Some(
                crate::cloud_client::document(config.deep_view()),
            ),
            final(self).client().local_config.deep_view() == Some(
                crate::cloud_client::document(config.deep_view()),
            ),
            final(self).client().branch_cloud_source@ == crate::cloud_client::branch_index(
                crate::cloud_client::document(config.deep_view()),
            ),
            final(self).client().cloud_source_map@ == crate::cloud_client::sources_by_name(
                Map::empty(),
                crate::cloud_client::document(config.deep_view()).cloud_source,
            ),
            final(self).client().cloud_magics_map@ == crate::cloud_client::magic_lookup(
                crate::cloud_client::document(config.deep_view()),
                crate::cloud_client::document(config.deep_view()),
            ),
            final(self).client().cloud_strategy_map == old(self).client().cloud_strategy_map,
            final(self).client().manual_retry_map == old(self).client().manual_retry_map,
    {
        self.client.init(remote, config);
    }

    /// Registers the strategy with the handle `strategy` for the provider family `name`. See
    /// `CloudClient::load_strategy`.
    pub fn load_strategy(&mut self, name: &str, strategy: usize)
        ensures
            final(self).client().cloud_strategy_map@ == old(self).client().cloud_strategy_map@.insert(
                name@,
                strategy,
            ),
            final(self).client().config == old(self).client().config,
            final(self).client().local_config == old(self).client().local_config,
            final(self).client().cloud_source_map == old(self).client().cloud_source_map,
            final(self).client().cloud_magics_map == old(self).client().cloud_magics_map,
            final(self).client().branch_cloud_source == old(self).client().branch_cloud_source,
            final(self).client().manual_retry_map == old(self).client().manual_retry_map,
    {
        self.client.load_strategy(name, strategy);
    }

    /// Replaces the configuration by what the two documents hold. See
    /// `CloudClient::load_conf`.
    pub fn load_conf(&mut self, config: Option<Config>, local_config: Option<Config>)
        ensures
            final(self).client().config.deep_view() == Some(
                crate::cloud_client::document(config.deep_view()),
            ),
            final(self).client().local_config.deep_view() == Some(
                crate::cloud_client::document(local_config.deep_view()),
            ),
            final(self).client().branch_cloud_source@ == crate::cloud_client::branch_index(
                crate::cloud_client::document(config.deep_view()),
            ),
            final(self).client().cloud_source_map@ == crate::cloud_client::sources_by_name(
                Map::empty(),
                crate::cloud_client::document(config.deep_view()).cloud_source,
            ),
            final(self).client().cloud_magics_map@ == crate::cloud_client::magic_lookup(
                crate::cloud_client::document(config.deep_view()),
                crate::cloud_client::document(local_config.deep_view()),
            ),
            final(self).client().cloud_strategy_map == old(self).client().cloud_strategy_map,
            final(self).client().manual_retry_map == old(self).client().manual_retry_map,
    {
        self.client.load_conf(config, local_config);
    }

    /// The request of an upload of the file to the bucket, for the number `draw` that the
    /// grayscale gate drew and the moment `up_id`. The request is bound to the bucket that
    /// `bucket` names in the cloud source, or to its fallback where the grayscale gate refuses
    /// it; where there is no such bucket, the error says what is missing.
    pub fn request_with(
        &self,
        bucket: &str,
        file_path: &str,
        filename: String,
        opts: UploadOptions,
        draw: i64,
        up_id: i64,
    ) -> (r: XResult<UploadOpts>)
        ensures
            crate::error::result_view(r) == upload_request(
                self.client(),
                bucket@,
                file_path@,
                filename@,
                opts,
                draw as int,
                up_id,
            ),
    {
        proof {
            reveal_strlit("/");
            assert("/"@ =~= seq!['/']);
        }
        let cloud_name = match &opts.cloud_name {
            Some(name) => name.clone(),
            None => String::from_str("_main"),
        };
        let bucket_source = match self.client.bucket_source_for_draw(
            bucket,
            cloud_name.as_str(),
            true,
            draw,
        ) {
            Ok(bucket_source) => bucket_source.clone(),
            Err(e) => {
                return Err(e);
            },
        };
        let key = cloud_name.concat("/").concat(filename.as_str());
        Ok(
            UploadOpts {
                bucket_source,
                bucket: String::from_str(bucket),
                filename,
                file_path: String::from_str(file_path),
                key,
                up_id,
                disable_retry: opts.disable_retry,
                manual_retry: opts.manual_retry,
            },
        )
    }

    /// The request of an upload of the file to the bucket: draws the number for the grayscale
    /// gate, takes the time as the upload's id, and goes on as `request_with` does.
    pub fn prepare_upload(
        &self,
        bucket: &str,
        file_path: &str,
        filename: String,
        opts: UploadOptions,
    ) -> (r: XResult<UploadOpts>)
        ensures
            exists|draw: int, up_id: i64|
                0 <= draw < 100 && crate::error::result_view(r) == #[trigger] upload_request(
                    self.client(),
                    bucket@,
                    file_path@,
                    filename@,
                    opts,
                    draw,
                    up_id,
                ),
    {
        let draw = crate::cloud_client::draw_gate();
        let up_id = crate::ambient::unix_millis();
        self.request_with(bucket, file_path, filename, opts, draw, up_id)
    }

    /// Starts the upload that `request` asks for. See `CloudClient::upload_begin`.
    pub fn upload_begin(&mut self, request: UploadOpts) -> (r: UploadStart)
        ensures
            r.announce@ == request@,
            r.state@ == begun(
                old(self).client().env(),
                old(self).client().manual_retry_map@,
                request@,
            ),
            r.action@ == pending(r.state@),
            state_wf(r.state@),
            final(self).client().manual_retry_map@ == registry_begun(
                old(self).client().env(),
                old(self).client().manual_retry_map@,
                request@,
            ),
            old(self).client().same_but_registry(&final(self).client()),
    {
        self.client.upload_begin(request)
    }

    /// Starts an upload of the file to the bucket, for the number `draw` that the grayscale
    /// gate drew and the moment `up_id`: makes the request as `request_with` does and, where
    /// that succeeds, starts the upload with it.
    pub fn upload_with(
        &mut self,
        bucket: &str,
        file_path: &str,
        filename: String,
        opts: UploadOptions,
        draw: i64,
        up_id: i64,
    ) -> (r: XResult<UploadStart>)
        ensures
            upload_started(
                old(self).client(),
                final(self).client(),
                bucket@,
                file_path@,
                filename@,
                opts,
                draw as int,
                up_id,
                r,
            ),
            old(self).client().same_but_registry(&final(self).client()),
    {
        match self.request_with(bucket, file_path, filename, opts, draw, up_id) {
            Ok(request) => Ok(self.client.upload_begin(request)),
            Err(e) => Err(e),
        }
    }

    /// Starts an upload of the file to the bucket: draws the number for the grayscale gate,
    /// takes the time as the upload's id, and goes on as `upload_with` does.
    pub fn upload(
        &mut self,
        bucket: &str,
        file_path: &str,
        filename: String,
        opts: UploadOptions,
    ) -> (r: XResult<UploadStart>)
        ensures
            exists|draw: int, up_id: i64|
                0 <= draw < 100 && #[trigger] upload_started(
                    old(self).client(),
                    final(self).client(),
                    bucket@,
                    file_path@,
                    filename@,
                    opts,
                    draw,
                    up_id,
                    r,
                ),
            old(self).client().same_but_registry(&final(self).client()),
    {
        let draw = crate::cloud_client::draw_gate();
        let up_id = crate::ambient::unix_millis();
        self.upload_with(bucket, file_path, filename, opts, draw, up_id)
    }

    /// Takes what came of the action handed out last, and hands out the next one. See
    /// `CloudClient::upload_step`.
    pub fn upload_step(&mut self, state: UploadState, event: UploadEvent) -> (r: (
        UploadState,
        UploadAction,
    ))
        ensures
            r.0@ == stepped(old(self).client().env(), state@, event@),
            r.1@ == pending(r.0@),
            state_wf(r.0@),
            final(self).client().manual_retry_map@ == registry_after(
                old(self).client().manual_retry_map@,
                state@,
                r.0@,
            ),
            old(self).client().same_but_registry(&final(self).client()),
    {
        self.client.upload_step(state, event)
    }

    /// The public address of the object that `key` names in the bucket `bucket`, with the
    /// fragments of the magics asked for. The bucket and every magic must be known.
    pub fn resolve(&self, bucket: &str, key: &str, magics: &[&str]) -> (r: XResult<String>)
        ensures
            match r {
                Ok(url) => {
                    &&& self.client().branch_cloud_source@.contains_key(bucket@)
                    &&& all_known(self.client().cloud_magics_map@, magics.deep_view())
                    &&& url@ == resolved(
                        self.client().branch_cloud_source@[bucket@],
                        key@,
                        requested_magics(self.client().cloud_magics_map@, magics.deep_view()),
                    )
                },
                Err(e) => if self.client().branch_cloud_source@.contains_key(bucket@) {
                    e@ == XErrorView::InvalidConfig && !all_known(
                        self.client().cloud_magics_map@,
                        magics.deep_view(),
                    )
                } else {
                    e@ == XErrorView::BucketNotFound(bucket@)
                },
            },
    {
        let branch_cloud_source = match self.client.current_branch_cloud_source(bucket) {
            Ok(row) => row,
            Err(e) => {
                return Err(e);
            },
        };
        let found = match self.client.current_magics(magics) {
            Ok(found) => found,
            Err(e) => {
                proof {
                    let i = choose|i: int|
                        0 <= i < magics.len() && !self.client.cloud_magics_map@.contains_key(
                            #[trigger] magics[i]@,
                        );
                    assert(magics.deep_view()[i] == magics[i]@);
                }
                return Err(e);
            },
        };
        let list = found.as_slice();
        proof {
            assert forall|i: int| 0 <= i < magics.len() implies self.client().cloud_magics_map@.contains_key(
                #[trigger] magics.deep_view()[i],
            ) by {
                assert(magics.deep_view()[i] == magics[i]@);
            }
            assert(list.deep_view() =~= requested_magics(
                self.client().cloud_magics_map@,
                magics.deep_view(),
            )) by {
                assert forall|i: int| 0 <= i < magics.len() implies list.deep_view()[i]
                    == self.client().cloud_magics_map@[magics.deep_view()[i]] by {
                    assert(magics.deep_view()[i] == magics[i]@);
                    assert(list.deep_view()[i] == found[i]@);
                }
            }
        }
        Ok(crate::resolver::resolve(branch_cloud_source, key, list))
    }

    /// Whether the storage key begins with a cloud source's tag.
    pub fn is_xclouder(&self, key: &str) -> (r: bool)
        ensures
            r == crate::cloud_client::cloud_tag(key@) is Some,
    {
        self.client.is_xclouder(key)
    }

    /// The cloud source's tag that the storage key begins with.
    pub fn take_cloud(&self, key: &str) -> (r: Option<String>)
        ensures
            r.deep_view() == crate::cloud_client::cloud_tag(key@),
    {
        self.client.take_cloud(key)
    }

    /// The storage key without the cloud source's tag that it begins with.
    pub fn simple_key(&self, key: &str) -> (r: String)
        ensures
            r@ == crate::cloud_client::untagged_key(key@),
    {
        self.client.simple_key(key)
    }
}

} // verus!
