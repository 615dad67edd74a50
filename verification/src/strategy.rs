//! What a provider strategy hands back, and the parts of the two shipped strategies that
//! compute.

use crate::cloud_client::{UploadOpts, UploadOptsView};
use crate::config::{BucketSource, BucketSourceView};
use crate::names::lemma_contains_last;
use crate::replicate::Replicate;
use crate::str_map::StrMap;
use crate::text::{find_char, first_index_of};
use vstd::prelude::*;
use vstd::string::*;

verus! {

/// Where an uploaded object can be found.
#[derive(Debug)]
pub struct UrlRes {
    pub base_url: String,
    pub key: String,
    pub domain: String,
    pub bucket: String,
}

pub struct UrlResView {
    pub base_url: Seq<char>,
    pub key: Seq<char>,
    pub domain: Seq<char>,
    pub bucket: Seq<char>,
}

impl UrlResView {
    /// The address of the object: the base address, `/`, the key.
    pub open spec fn text(self) -> Seq<char> {
        self.base_url + seq!['/'] + self.key
    }
}

impl DeepView for UrlRes {
    type V = UrlResView;

    open spec fn deep_view(&self) -> UrlResView {
        UrlResView {
            base_url: self.base_url@,
            key: self.key@,
            domain: self.domain@,
            bucket: self.bucket@,
        }
    }
}

impl View for UrlRes {
    type V = UrlResView;

    open spec fn view(&self) -> UrlResView {
        self.deep_view()
    }
}

impl Replicate for UrlRes {
    fn replicate(&self) -> (r: Self) {
        UrlRes {
            base_url: self.base_url.clone(),
            key: self.key.clone(),
            domain: self.domain.clone(),
            bucket: self.bucket.clone(),
        }
    }
}

impl Clone for UrlRes {
    fn clone(&self) -> (r: Self)
        ensures
            r@ == self@,
    {
        self.replicate()
    }
}

impl UrlRes {
    /// The address of the object: the base address, `/`, the key.
    pub fn to_string(&self) -> (r: String)
        ensures
            r@ == self@.text(),
    {
        proof {
            reveal_strlit("/");
            assert("/"@ =~= seq!['/']);
        }
        self.base_url.clone().concat("/").concat(self.key.as_str())
    }
}

/// A request to the host's HTTP interface.
#[derive(Debug)]
pub struct RequestArgs {
    pub method: String,
    pub url: String,
    pub enable_cache: bool,
    /// In milliseconds.
    pub timeout: u32,
    pub response_type: String,
}

pub struct RequestArgsView {
    pub method: Seq<char>,
    pub url: Seq<char>,
    pub enable_cache: bool,
    pub timeout: u32,
    pub response_type: Seq<char>,
}

impl DeepView for RequestArgs {
    type V = RequestArgsView;

    open spec fn deep_view(&self) -> RequestArgsView {
        RequestArgsView {
            method: self.method@,
            url: self.url@,
            enable_cache: self.enable_cache,
            timeout: self.timeout,
            response_type: self.response_type@,
        }
    }
}

impl View for RequestArgs {
    type V = RequestArgsView;

    open spec fn view(&self) -> RequestArgsView {
        self.deep_view()
    }
}

impl Replicate for RequestArgs {
    fn replicate(&self) -> (r: Self) {
        RequestArgs {
            method: self.method.clone(),
            url: self.url.clone(),
            enable_cache: self.enable_cache,
            timeout: self.timeout,
            response_type: self.response_type.clone(),
        }
    }
}

impl Clone for RequestArgs {
    fn clone(&self) -> (r: Self)
        ensures
            r@ == self@,
    {
        self.replicate()
    }
}

/// The value of one field of an upload form.
#[derive(Debug)]
pub enum FormValue {
    /// A text.
    Text(String),
    /// A value that came with the credentials, as JSON.
    Json(String),
}

pub enum FormValueView {
    Text(Seq<char>),
    Json(Seq<char>),
}

impl DeepView for FormValue {
    type V = FormValueView;

    open spec fn deep_view(&self) -> FormValueView {
        match self {
            FormValue::Text(t) => FormValueView::Text(t@),
            FormValue::Json(t) => FormValueView::Json(t@),
        }
    }
}

impl Replicate for FormValue {
    fn replicate(&self) -> (r: Self) {
        match self {
            FormValue::Text(t) => FormValue::Text(t.clone()),
            FormValue::Json(t) => FormValue::Json(t.clone()),
        }
    }
}

/// A transfer for the host to perform.
#[derive(Debug)]
pub struct UploadArgs {
    pub url: String,
    /// The name of the form field that carries the file.
    pub name: String,
    pub file_path: String,
    pub form_data: StrMap<FormValue>,
    /// Whether the progress of the transfer is reported to the caller.
    pub with_progress: bool,
}

pub struct UploadArgsView {
    pub url: Seq<char>,
    pub name: Seq<char>,
    pub file_path: Seq<char>,
    pub form_data: Map<Seq<char>, FormValueView>,
    pub with_progress: bool,
}

impl DeepView for UploadArgs {
    type V = UploadArgsView;

    open spec fn deep_view(&self) -> UploadArgsView {
        UploadArgsView {
            url: self.url@,
            name: self.name@,
            file_path: self.file_path@,
            form_data: self.form_data@,
            with_progress: self.with_progress,
        }
    }
}

impl View for UploadArgs {
    type V = UploadArgsView;

    open spec fn view(&self) -> UploadArgsView {
        self.deep_view()
    }
}

impl Replicate for UploadArgs {
    fn replicate(&self) -> (r: Self) {
        UploadArgs {
            url: self.url.clone(),
            name: self.name.clone(),
            file_path: self.file_path.clone(),
            form_data: self.form_data.replicate(),
            with_progress: self.with_progress,
        }
    }
}

impl Clone for UploadArgs {
    fn clone(&self) -> (r: Self)
        ensures
            r@ == self@,
    {
        self.replicate()
    }
}

/// How a strategy comes by the credentials of a bucket.
#[derive(Debug)]
pub enum StsPlan {
    /// No host is loaded: the credentials are empty.
    Null,
    /// The credentials in the host's cache are used.
    UseCached,
    /// The credentials are asked for with `request`, and belong under `storage_key` in the
    /// host's cache.
    Request { storage_key: String, request: RequestArgs },
}

pub enum StsPlanView {
    Null,
    UseCached,
    Request { storage_key: Seq<char>, request: RequestArgsView },
}

impl DeepView for StsPlan {
    type V = StsPlanView;

    open spec fn deep_view(&self) -> StsPlanView {
        match self {
            StsPlan::Null => StsPlanView::Null,
            StsPlan::UseCached => StsPlanView::UseCached,
            StsPlan::Request { storage_key, request } => StsPlanView::Request {
                storage_key: storage_key@,
                request: request@,
            },
        }
    }
}

impl View for StsPlan {
    type V = StsPlanView;

    open spec fn view(&self) -> StsPlanView {
        self.deep_view()
    }
}

/// How a strategy transfers a file: the transfer for the host, if a host is loaded, and where
/// the object is found once it has gone through.
#[derive(Debug)]
pub struct UploadPlan {
    pub args: Option<UploadArgs>,
    pub result: UrlRes,
}

/// The text, or the empty text where there is none.
pub open spec fn text_or_empty(text: Option<Seq<char>>) -> Seq<char> {
    match text {
        Some(t) => t,
        None => Seq::empty(),
    }
}

/// The key under which the credentials of a bucket are cached: `sts:`, the cloud source's tag,
/// `:`, the bucket's name.
pub open spec fn sts_storage_key(bucket: BucketSourceView) -> Seq<char> {
    "sts:"@ + text_or_empty(bucket.cloud_name) + seq![':'] + bucket.name
}

/// The key tells the cloud source and the bucket: buckets with the same key have the same
/// cloud source's tag and the same name, as long as no tag holds a `:`.
pub proof fn law_storage_key_tells_bucket(a: BucketSourceView, b: BucketSourceView)
    requires
        !text_or_empty(a.cloud_name).contains(':'),
        !text_or_empty(b.cloud_name).contains(':'),
        sts_storage_key(a) == sts_storage_key(b),
    ensures
        text_or_empty(a.cloud_name) == text_or_empty(b.cloud_name),
        a.name == b.name,
{
    reveal_strlit("sts:");
    let ca = text_or_empty(a.cloud_name);
    let cb = text_or_empty(b.cloud_name);
    let ka = sts_storage_key(a);
    let kb = sts_storage_key(b);
    let la = ca.len() as int;
    let lb = cb.len() as int;
    assert(ka.len() == 4 + ca.len() + 1 + a.name.len());
    assert(kb.len() == 4 + cb.len() + 1 + b.name.len());
    assert(ka[4 + la] == ':');
    assert(kb[4 + lb] == ':');
    if la < lb {
        assert(kb[4 + la] == cb[la]);
        assert(cb.contains(cb[la]));
    }
    if lb < la {
        assert(ka[4 + lb] == ca[lb]);
        assert(ca.contains(ca[lb]));
    }
    assert forall|i: int| 0 <= i < ca.len() implies ca[i] == cb[i] by {
        assert(ka[4 + i] == ca[i]);
        assert(kb[4 + i] == cb[i]);
    }
    assert(ca =~= cb);
    assert forall|i: int| 0 <= i < a.name.len() implies a.name[i] == b.name[i] by {
        assert(ka[5 + la + i] == a.name[i]);
        assert(kb[5 + lb + i] == b.name[i]);
    }
    assert(a.name =~= b.name);
}

/// What a domain begins with, up to its first `.`.
pub open spec fn first_label(domain: Seq<char>) -> Seq<char> {
    match first_index_of(domain, '.') {
        Some(i) => domain.subrange(0, i),
        None => domain,
    }
}

/// The address at which the credentials of a bucket are asked for.
pub open spec fn sts_url(bucket: BucketSourceView) -> Seq<char> {
    "/api/cloud/sts?cloud="@ + text_or_empty(bucket.cloud) + "&cloudName="@ + text_or_empty(
        bucket.cloud_name,
    ) + "&bucket="@ + first_label(text_or_empty(bucket.domain))
}

/// The request for the credentials of a bucket.
pub open spec fn sts_request(bucket: BucketSourceView) -> RequestArgsView {
    RequestArgsView {
        method: "GET"@,
        url: sts_url(bucket),
        enable_cache: false,
        timeout: 10000,
        response_type: "json"@,
    }
}

/// Whether cached credentials can still be used at the second `now`: they carry no expiry, or
/// one that lies ahead.
pub open spec fn still_valid(expire_at: Option<i64>, now: i64) -> bool {
    match expire_at {
        Some(at) => now < at,
        None => true,
    }
}

/// How the credentials of a bucket are come by. `cached` is the expiry of the credentials in
/// the host's cache, if it holds any for the bucket.
pub open spec fn sts_plan(
    native: bool,
    bucket: BucketSourceView,
    cached: Option<Option<i64>>,
    now: i64,
) -> StsPlanView {
    if !native {
        StsPlanView::Null
    } else if cached matches Some(expire_at) && still_valid(expire_at, now) {
        StsPlanView::UseCached
    } else {
        StsPlanView::Request { storage_key: sts_storage_key(bucket), request: sts_request(bucket) }
    }
}

/// The base address of a bucket: `https://` and its domain.
pub open spec fn base_url(bucket: BucketSourceView) -> Seq<char> {
    "https://"@ + text_or_empty(bucket.domain)
}

/// Where an object is found once it has gone to `bucket` under the request's key.
pub open spec fn upload_result(bucket: BucketSourceView, opts: UploadOptsView) -> UrlResView {
    UrlResView {
        base_url: base_url(bucket),
        key: opts.key,
        domain: text_or_empty(bucket.domain),
        bucket: bucket.name,
    }
}

/// The fields that came with the credentials, as form values.
pub open spec fn merged_fields(merge: Option<Map<Seq<char>, Seq<char>>>) -> Map<
    Seq<char>,
    FormValueView,
> {
    match merge {
        Some(fields) => Map::new(
            |k: Seq<char>| fields.contains_key(k),
            |k: Seq<char>| FormValueView::Json(fields[k]),
        ),
        None => Map::empty(),
    }
}

/// The form of a transfer: the fields of the strategy's own, overridden by those that came
/// with the credentials.
pub open spec fn upload_form(
    own: Map<Seq<char>, FormValueView>,
    merge: Option<Map<Seq<char>, Seq<char>>>,
) -> Map<Seq<char>, FormValueView> {
    own.union_prefer_right(merged_fields(merge))
}

/// The transfer of a request's file to `bucket`.
pub open spec fn upload_args(
    bucket: BucketSourceView,
    opts: UploadOptsView,
    own: Map<Seq<char>, FormValueView>,
    merge: Option<Map<Seq<char>, Seq<char>>>,
    with_progress: bool,
) -> UploadArgsView {
    UploadArgsView {
        url: base_url(bucket),
        name: "file"@,
        file_path: opts.file_path,
        form_data: upload_form(own, merge),
        with_progress,
    }
}

/// The text, or the empty text where there is none.
fn str_or_empty(text: &Option<String>) -> (r: &str)
    ensures
        r@ == text_or_empty(text.deep_view()),
{
    proof {
        reveal_strlit("");
        assert(""@ =~= Seq::<char>::empty());
    }
    match text {
        Some(t) => t.as_str(),
        None => "",
    }
}

/// The key under which the credentials of a bucket are cached.
pub fn storage_key_of(bucket_source: &BucketSource) -> (r: String)
    ensures
        r@ == sts_storage_key(bucket_source@),
{
    proof {
        reveal_strlit(":");
        assert(":"@ =~= seq![':']);
    }
    String::from_str("sts:").concat(str_or_empty(&bucket_source.cloud_name)).concat(":").concat(
        bucket_source.name.as_str(),
    )
}

/// The request for the credentials of a bucket.
pub fn request_of(bucket_source: &BucketSource) -> (r: RequestArgs)
    ensures
        r@ == sts_request(bucket_source@),
{
    let domain = str_or_empty(&bucket_source.domain);
    let bucket_key = match find_char(domain, '.') {
        Some(i) => domain.substring_char(0, i),
        None => domain,
    };
    let url = String::from_str("/api/cloud/sts?cloud=").concat(
        str_or_empty(&bucket_source.cloud),
    ).concat("&cloudName=").concat(str_or_empty(&bucket_source.cloud_name)).concat(
        "&bucket=",
    ).concat(bucket_key);
    RequestArgs {
        method: String::from_str("GET"),
        url,
        enable_cache: false,
        timeout: 10000,
        response_type: String::from_str("json"),
    }
}

/// How the credentials of a bucket are come by.
fn plan_sts(native: bool, bucket_source: &BucketSource, cached: Option<Option<i64>>, now: i64) -> (r:
    StsPlan)
    ensures
        r@ == sts_plan(native, bucket_source@, cached, now),
{
    if !native {
        return StsPlan::Null;
    }
    let usable = match cached {
        Some(Some(at)) => now < at,
        Some(None) => true,
        None => false,
    };
    if usable {
        StsPlan::UseCached
    } else {
        StsPlan::Request {
            storage_key: storage_key_of(bucket_source),
            request: request_of(bucket_source),
        }
    }
}

/// The key under which fresh credentials are to be cached: that of the bucket where they carry
/// an expiry, none where they do not.
fn cache_key_for(bucket_source: &BucketSource, expire_at: Option<i64>) -> (r: Option<String>)
    ensures
        r.deep_view() == (if expire_at is Some {
            Some(sts_storage_key(bucket_source@))
        } else {
            None
        }),
{
    match expire_at {
        Some(_) => Some(storage_key_of(bucket_source)),
        None => None,
    }
}

/// The fields that came with the credentials, as form values.
fn as_form_values(fields: &StrMap<String>) -> (r: StrMap<FormValue>)
    ensures
        r@ == merged_fields(Some(fields@)),
{
    let mut out: StrMap<FormValue> = StrMap::new();
    let n = fields.len();
    let ghost keys = fields.spec_keys();
    let mut i: usize = 0;
    while i < n
        invariant
            i <= n,
            n == keys.len(),
            keys == fields.spec_keys(),
            forall|k: Seq<char>| fields@.contains_key(k) <==> keys.contains(k),
            forall|k: Seq<char>| out@.contains_key(k) <==> keys.take(i as int).contains(k),
            forall|k: Seq<char>|
                out@.contains_key(k) ==> out@[k] == FormValueView::Json(fields@[k]),
        decreases n - i,
    {
        let ghost before = keys.take(i as int);
        let value = FormValue::Json(fields.value_at(i).clone());
        out.insert(fields.key_at(i).clone(), value);
        proof {
            let longer = keys.take(i + 1);
            assert(longer.drop_last() =~= before);
            assert(longer.last() == keys[i as int]);
            assert forall|k: Seq<char>| out@.contains_key(k) <==> longer.contains(k) by {
                lemma_contains_last(longer, k);
            }
        }
        i += 1;
    }
    proof {
        assert(keys.take(i as int) =~= keys);
        assert(out@ =~= merged_fields(Some(fields@)));
    }
    out
}

/// The transfer and its result.
fn plan_upload(
    native: bool,
    bucket_source: &BucketSource,
    own: StrMap<FormValue>,
    merge_form_data: Option<&StrMap<String>>,
    opts: &UploadOpts,
    with_progress: bool,
) -> (r: UploadPlan)
    ensures
        r.result@ == upload_result(bucket_source@, opts@),
        r.args.deep_view() == (if native {
            Some(
                upload_args(
                    bucket_source@,
                    opts@,
                    own@,
                    merge_form_data.deep_view(),
                    with_progress,
                ),
            )
        } else {
            None
        }),
{
    let base = String::from_str("https://").concat(str_or_empty(&bucket_source.domain));
    let result = UrlRes {
        base_url: base.clone(),
        key: opts.key.clone(),
        domain: String::from_str(str_or_empty(&bucket_source.domain)),
        bucket: bucket_source.name.clone(),
    };
    if !native {
        return UploadPlan { args: None, result };
    }
    let mut form_data = own;
    if let Some(fields) = merge_form_data {
        let brought = as_form_values(fields);
        form_data.extend(&brought);
    }
    proof {
        assert(merged_fields(None) =~= Map::<Seq<char>, FormValueView>::empty());
        assert(form_data@ =~= upload_form(own@, merge_form_data.deep_view()));
    }
    let args = UploadArgs {
        url: base,
        name: String::from_str("file"),
        file_path: opts.file_path.clone(),
        form_data,
        with_progress,
    };
    UploadPlan { args: Some(args), result }
}

/// The strategy for the provider family `oss`.
#[derive(Debug)]
pub struct Oss {
    name: String,
    native: bool,
}

/// The strategy for the provider family `tos`.
#[derive(Debug)]
pub struct Tos {
    name: String,
    native: bool,
}

/// The fields of the strategy `oss` own: the key and the status to answer with.
pub open spec fn oss_fields(key: Seq<char>) -> Map<Seq<char>, FormValueView> {
    Map::<Seq<char>, FormValueView>::empty().insert("key"@, FormValueView::Text(key)).insert(
        "success_action_status"@,
        FormValueView::Text("200"@),
    )
}

/// The fields of the strategy `tos` own: the key.
pub open spec fn tos_fields(key: Seq<char>) -> Map<Seq<char>, FormValueView> {
    Map::<Seq<char>, FormValueView>::empty().insert("key"@, FormValueView::Text(key))
}

impl Oss {
    /// Whether a host is loaded.
    pub closed spec fn has_native(&self) -> bool {
        self.native
    }

    /// The provider family.
    pub closed spec fn spec_name(&self) -> Seq<char> {
        self.name@
    }

    pub fn new() -> (r: Self)
        ensures
            !r.has_native(),
            r.spec_name() == "oss"@,
    {
        Oss { name: String::from_str("oss"), native: false }
    }

    /// The provider family that the strategy is registered for.
    pub fn name(&self) -> (r: &str)
        ensures
            r@ == self.spec_name(),
    {
        self.name.as_str()
    }

    /// Notes that a host is loaded.
    pub fn load_native(&mut self)
        ensures
            final(self).has_native(),
            final(self).spec_name() == old(self).spec_name(),
    {
        self.native = true;
    }

    /// The key under which the credentials of a bucket are cached.
    pub fn storage_key(&self, bucket_source: &BucketSource) -> (r: String)
        ensures
            r@ == sts_storage_key(bucket_source@),
    {
        storage_key_of(bucket_source)
    }

    /// What the provider tells of a domain: nothing.
    pub fn domain_parser(&self, domain: &str) -> (r: StrMap<String>)
        ensures
            r@ == Map::<Seq<char>, Seq<char>>::empty(),
    {
        StrMap::new()
    }

    /// How the credentials of a bucket are come by: with no host loaded they are empty; cached
    /// credentials are used while they are valid; else they are asked for.
    pub fn get_sts(&self, bucket_source: &BucketSource, cached: Option<Option<i64>>, now: i64) -> (r:
        StsPlan)
        ensures
            r@ == sts_plan(self.has_native(), bucket_source@, cached, now),
    {
        plan_sts(self.native, bucket_source, cached, now)
    }

    /// The key under which fresh credentials are to be cached: they are cached where they carry
    /// an expiry.
    pub fn keep_sts(&self, bucket_source: &BucketSource, expire_at: Option<i64>) -> (r: Option<
        String,
    >)
        ensures
            r.deep_view() == (if expire_at is Some {
                Some(sts_storage_key(bucket_source@))
            } else {
                None
            }),
    {
        cache_key_for(bucket_source, expire_at)
    }

    /// The transfer of the request's file to the bucket, with the fields that came with the
    /// credentials, and where the object is found afterwards. Without a host there is no
    /// transfer.
    pub fn upload(
        &self,
        bucket_source: &BucketSource,
        merge_form_data: Option<&StrMap<String>>,
        opts: &UploadOpts,
    ) -> (r: UploadPlan)
        ensures
            r.result@ == upload_result(bucket_source@, opts@),
            r.args.deep_view() == (if self.has_native() {
                Some(
                    upload_args(
                        bucket_source@,
                        opts@,
                        oss_fields(opts@.key),
                        merge_form_data.deep_view(),
                        false,
                    ),
                )
            } else {
                None
            }),
    {
        let mut own: StrMap<FormValue> = StrMap::new();
        own.insert(String::from_str("key"), FormValue::Text(opts.key.clone()));
        own.insert(
            String::from_str("success_action_status"),
            FormValue::Text(String::from_str("200")),
        );
        plan_upload(self.native, bucket_source, own, merge_form_data, opts, false)
    }
}

impl Tos {
    /// Whether a host is loaded.
    pub closed spec fn has_native(&self) -> bool {
        self.native
    }

    /// The provider family.
    pub closed spec fn spec_name(&self) -> Seq<char> {
        self.name@
    }

    pub fn new() -> (r: Self)
        ensures
            !r.has_native(),
            r.spec_name() == "tos"@,
    {
        Tos { name: String::from_str("tos"), native: false }
    }

    /// The provider family that the strategy is registered for.
    pub fn name(&self) -> (r: &str)
        ensures
            r@ == self.spec_name(),
    {
        self.name.as_str()
    }

    /// Notes that a host is loaded.
    pub fn load_native(&mut self)
        ensures
            final(self).has_native(),
            final(self).spec_name() == old(self).spec_name(),
    {
        self.native = true;
    }

    /// The key under which the credentials of a bucket are cached.
    pub fn storage_key(&self, bucket_source: &BucketSource) -> (r: String)
        ensures
            r@ == sts_storage_key(bucket_source@),
    {
        storage_key_of(bucket_source)
    }

    /// What the provider tells of a domain: nothing.
    pub fn domain_parser(&self, domain: &str) -> (r: StrMap<String>)
        ensures
            r@ == Map::<Seq<char>, Seq<char>>::empty(),
    {
        StrMap::new()
    }

    /// How the credentials of a bucket are come by: with no host loaded they are empty; cached
    /// credentials are used while they are valid; else they are asked for.
    pub fn get_sts(&self, bucket_source: &BucketSource, cached: Option<Option<i64>>, now: i64) -> (r:
        StsPlan)
        ensures
            r@ == sts_plan(self.has_native(), bucket_source@, cached, now),
    {
        plan_sts(self.native, bucket_source, cached, now)
    }

    /// The key under which fresh credentials are to be cached: they are cached where they carry
    /// an expiry.
    pub fn keep_sts(&self, bucket_source: &BucketSource, expire_at: Option<i64>) -> (r: Option<
        String,
    >)
        ensures
            r.deep_view() == (if expire_at is Some {
                Some(sts_storage_key(bucket_source@))
            } else {
                None
            }),
    {
        cache_key_for(bucket_source, expire_at)
    }

    /// The transfer of the request's file to the bucket, with the fields that came with the
    /// credentials, and where the object is found afterwards. Without a host there is no
    /// transfer.
    pub fn upload(
        &self,
        bucket_source: &BucketSource,
        merge_form_data: Option<&StrMap<String>>,
        opts: &UploadOpts,
    ) -> (r: UploadPlan)
        ensures
            r.result@ == upload_result(bucket_source@, opts@),
            r.args.deep_view() == (if self.has_native() {
                Some(
                    upload_args(
                        bucket_source@,
                        opts@,
                        tos_fields(opts@.key),
                        merge_form_data.deep_view(),
                        true,
                    ),
                )
            } else {
                None
            }),
    {
        let mut own: StrMap<FormValue> = StrMap::new();
        own.insert(String::from_str("key"), FormValue::Text(opts.key.clone()));
        plan_upload(self.native, bucket_source, own, merge_form_data, opts, true)
    }
}

} // verus!
