//! Clips: what is known of them, how they are named, listed, uploaded and downloaded.

use vstd::prelude::*;

use crate::config::{S3Config, S3ConfigView};
use crate::detector::FinishedClip;
use crate::order::{
    find_slot, in_key_order, key_before, key_views, keys_of, sorted_by_key,
    sorted_by_key_is_ordered, sorted_by_key_is_stable, sorted_by_key_keeps_items, text_before,
    with_key,
};
use crate::text::{begins_with, chars_of, copy_range, decimal, decimal_text, join2, string_of};
use crate::time::{clip_display, format_clip_timestamp, zoned, Timestamp};

verus! {

/// The region named to the storage provider; the endpoint tells where it really is.
pub const REGION: &'static str = "us-east-1";

/// Where in the bucket clips are kept.
pub const CLIP_PREFIX: &'static str = "recordings/";

/// Where a clip is.
#[derive(Clone, Copy, Debug, PartialEq, Eq, Structural)]
pub enum ClipSource {
    InMemoryActive,
    InMemoryPendingUpload,
    Uploaded,
}

/// What is shown of a clip.
#[derive(Debug)]
pub struct ClipInfo {
    pub key: String,
    pub last_modified: String,
    pub last_modified_display: String,
    pub size_bytes: u64,
    pub source: ClipSource,
}

/// What a `ClipInfo` holds.
#[verifier::ext_equal]
pub struct ClipInfoView {
    pub key: Seq<char>,
    pub last_modified: Seq<char>,
    pub last_modified_display: Seq<char>,
    pub size_bytes: u64,
    pub source: ClipSource,
}

impl View for ClipInfo {
    type V = ClipInfoView;

    open spec fn view(&self) -> ClipInfoView {
        ClipInfoView {
            key: self.key@,
            last_modified: self.last_modified@,
            last_modified_display: self.last_modified_display@,
            size_bytes: self.size_bytes,
            source: self.source,
        }
    }
}

impl Clone for ClipInfo {
    fn clone(&self) -> (copy: Self)
        ensures
            copy == *self,
    {
        ClipInfo {
            key: self.key.clone(),
            last_modified: self.last_modified.clone(),
            last_modified_display: self.last_modified_display.clone(),
            size_bytes: self.size_bytes,
            source: self.source,
        }
    }
}

/// What a clip holds, where there is one.
pub open spec fn optional_clip(clip: Option<ClipInfo>) -> Option<ClipInfoView> {
    match clip {
        Some(c) => Some(c@),
        None => None,
    }
}

/// What some clips hold.
pub open spec fn clip_views(clips: Seq<ClipInfo>) -> Seq<ClipInfoView> {
    clips.map_values(|c: ClipInfo| c@)
}

/// A clip that was downloaded: where it was put and what it is called in the bucket.
#[derive(Debug)]
pub struct DownloadedClip {
    pub file_path: String,
    pub key: String,
}

/// What a `DownloadedClip` holds.
#[verifier::ext_equal]
pub struct DownloadedClipView {
    pub file_path: Seq<char>,
    pub key: Seq<char>,
}

impl View for DownloadedClip {
    type V = DownloadedClipView;

    open spec fn view(&self) -> DownloadedClipView {
        DownloadedClipView { file_path: self.file_path@, key: self.key@ }
    }
}

impl Clone for DownloadedClip {
    fn clone(&self) -> (copy: Self)
        ensures
            copy == *self,
    {
        DownloadedClip { file_path: self.file_path.clone(), key: self.key.clone() }
    }
}

/// How an upload ended.
#[derive(Debug)]
pub enum UploadOutcome {
    Uploaded { key: String, size_bytes: usize },
    Skipped { size_bytes: usize },
}

/// What an `UploadOutcome` holds.
#[verifier::ext_equal]
pub enum UploadOutcomeView {
    Uploaded { key: Seq<char>, size_bytes: usize },
    Skipped { size_bytes: usize },
}

impl View for UploadOutcome {
    type V = UploadOutcomeView;

    open spec fn view(&self) -> UploadOutcomeView {
        match *self {
            UploadOutcome::Uploaded { key, size_bytes } => UploadOutcomeView::Uploaded {
                key: key@,
                size_bytes,
            },
            UploadOutcome::Skipped { size_bytes } => UploadOutcomeView::Skipped { size_bytes },
        }
    }
}

/// A bucket and how to get at it.
#[derive(Debug)]
pub struct BucketTarget {
    pub region: String,
    pub endpoint: String,
    pub bucket: String,
    pub access_key: String,
    pub secret_key: String,
}

/// What a `BucketTarget` holds.
#[verifier::ext_equal]
pub struct BucketTargetView {
    pub region: Seq<char>,
    pub endpoint: Seq<char>,
    pub bucket: Seq<char>,
    pub access_key: Seq<char>,
    pub secret_key: Seq<char>,
}

impl View for BucketTarget {
    type V = BucketTargetView;

    open spec fn view(&self) -> BucketTargetView {
        BucketTargetView {
            region: self.region@,
            endpoint: self.endpoint@,
            bucket: self.bucket@,
            access_key: self.access_key@,
            secret_key: self.secret_key@,
        }
    }
}

/// The bucket that the settings name.
pub open spec fn target_of(config: S3ConfigView) -> BucketTargetView {
    BucketTargetView {
        region: REGION@,
        endpoint: config.endpoint_url,
        bucket: config.bucket,
        access_key: config.access_key,
        secret_key: config.secret_key,
    }
}

/// The bucket that the settings name.
pub fn bucket_target(config: &S3Config) -> (target: BucketTarget)
    ensures
        target@ == target_of(config@),
{
    BucketTarget {
        region: REGION.to_owned(),
        endpoint: config.endpoint_url.clone(),
        bucket: config.bucket.clone(),
        access_key: config.access_key.clone(),
        secret_key: config.secret_key.clone(),
    }
}

/// Whether a status code says that a request succeeded.
pub open spec fn is_success(status: u16) -> bool {
    200 <= status < 300
}

/// What a `Result` of a clip's operation holds, its error as text.
pub open spec fn outcome_view(
    result: Result<UploadOutcome, String>,
) -> Result<UploadOutcomeView, Seq<char>> {
    match result {
        Ok(o) => Ok(o@),
        Err(e) => Err(e@),
    }
}

// ---------------------------------------------------------------------------
// Uploading
// ---------------------------------------------------------------------------

/// What is to be done to upload a clip.
#[derive(Debug)]
pub enum UploadPlan {
    Skip { outcome: UploadOutcome },
    Put { target: BucketTarget, key: String },
}

/// What an `UploadPlan` holds.
#[verifier::ext_equal]
pub enum UploadPlanView {
    Skip { outcome: UploadOutcomeView },
    Put { target: BucketTargetView, key: Seq<char> },
}

impl View for UploadPlan {
    type V = UploadPlanView;

    open spec fn view(&self) -> UploadPlanView {
        match *self {
            UploadPlan::Skip { outcome } => UploadPlanView::Skip { outcome: outcome@ },
            UploadPlan::Put { target, key } => UploadPlanView::Put { target: target@, key: key@ },
        }
    }
}

/// The name in the bucket of a clip that was captured at the given time.
pub open spec fn clip_key(captured_at: Timestamp) -> Seq<char> {
    named_key(captured_at.key_stamp_view())
}

/// The name in the bucket of a clip with the given time in its name.
pub open spec fn named_key(stamp: Seq<char>) -> Seq<char> {
    CLIP_PREFIX@ + stamp + ".wav"@
}

/// The name in the bucket of a clip with the given time in its name.
pub fn key_with_stamp(stamp: &str) -> (key: String)
    ensures
        key@ == named_key(stamp@),
{
    let mut key = join2(CLIP_PREFIX, stamp);
    key.append(".wav");
    key
}

/// Plans the upload of a clip: nothing is done where the settings leave the bucket blank.
pub fn upload_clip(config: &S3Config, clip: &FinishedClip) -> (plan: UploadPlan)
    ensures
        plan@ == (if config@.uploads() {
            UploadPlanView::Put { target: target_of(config@), key: clip_key(clip.captured_at) }
        } else {
            UploadPlanView::Skip {
                outcome: UploadOutcomeView::Skipped { size_bytes: clip.size_bytes },
            }
        }),
{
    if !config.uploads_enabled() {
        return UploadPlan::Skip {
            outcome: UploadOutcome::Skipped { size_bytes: clip.size_bytes },
        };
    }
    let stamp = clip.captured_at.key_stamp();
    let key = key_with_stamp(stamp.as_str());
    UploadPlan::Put { target: bucket_target(config), key }
}

/// What becomes of an upload, given the status code of the reply.
pub fn uploaded_clip(
    status: u16,
    key: String,
    size_bytes: usize,
) -> (result: Result<UploadOutcome, String>)
    ensures
        outcome_view(result) == (if is_success(status) {
            Ok(UploadOutcomeView::Uploaded { key: key@, size_bytes })
        } else {
            Err("S3 upload failed with status "@ + decimal(status as nat))
        }),
{
    if 200 <= status && status < 300 {
        Ok(UploadOutcome::Uploaded { key, size_bytes })
    } else {
        Err(join2("S3 upload failed with status ", decimal_text(status as u64).as_str()))
    }
}

// ---------------------------------------------------------------------------
// Downloading
// ---------------------------------------------------------------------------

/// What is to be done to download a clip.
#[derive(Debug)]
pub struct DownloadPlan {
    pub target: BucketTarget,
    pub key: String,
    pub file_name: String,
}

/// What a `DownloadPlan` holds.
#[verifier::ext_equal]
pub struct DownloadPlanView {
    pub target: BucketTargetView,
    pub key: Seq<char>,
    pub file_name: Seq<char>,
}

impl View for DownloadPlan {
    type V = DownloadPlanView;

    open spec fn view(&self) -> DownloadPlanView {
        DownloadPlanView { target: self.target@, key: self.key@, file_name: self.file_name@ }
    }
}

/// What stands behind the last slash of a name, all of it where there is no slash.
pub open spec fn last_part(key: Seq<char>) -> Seq<char>
    decreases key.len(),
{
    if key.len() == 0 || key.last() == '/' {
        Seq::empty()
    } else {
        last_part(key.drop_last()).push(key.last())
    }
}

/// The name of the file that a clip is downloaded to.
pub fn clip_file_name(key: &str) -> (name: String)
    ensures
        name@ == last_part(key@),
{
    let chars = chars_of(key);
    let mut start: usize = chars.len();
    assert(chars@.take(start as int) =~= chars@);
    assert(last_part(chars@) + Seq::<char>::empty() =~= last_part(chars@));
    assert(chars@.skip(start as int) =~= Seq::<char>::empty());
    while start > 0 && chars[start - 1] != '/'
        invariant
            start <= chars@.len(),
            chars@ == key@,
            last_part(key@) == last_part(chars@.take(start as int)) + chars@.skip(start as int),
        decreases start,
    {
        let ghost head = chars@.take(start as int);
        assert(head.drop_last() =~= chars@.take(start - 1));
        assert(last_part(head.drop_last()).push(head.last()) + chars@.skip(start as int)
            =~= last_part(head.drop_last()) + chars@.skip(start - 1));
        start = start - 1;
    }
    assert(last_part(chars@.take(start as int)) =~= Seq::<char>::empty());
    assert(last_part(key@) =~= chars@.skip(start as int));
    assert(chars@.subrange(start as int, chars@.len() as int) =~= chars@.skip(start as int));
    string_of(&copy_range(&chars, start, chars.len()))
}

/// Plans the download of a clip.
pub fn download_clip(config: &S3Config, key: &str) -> (plan: DownloadPlan)
    ensures
        plan@ == (DownloadPlanView {
            target: target_of(config@),
            key: key@,
            file_name: last_part(key@),
        }),
{
    DownloadPlan {
        target: bucket_target(config),
        key: key.to_owned(),
        file_name: clip_file_name(key),
    }
}

/// What is wrong with the reply to a download, given its status code.
pub fn download_problem(status: u16) -> (problem: Option<String>)
    ensures
        crate::config::optional_text(problem) == (if is_success(status) {
            None
        } else {
            Some("S3 download failed with status "@ + decimal(status as nat))
        }),
{
    if 200 <= status && status < 300 {
        None
    } else {
        Some(join2("S3 download failed with status ", decimal_text(status as u64).as_str()))
    }
}

// ---------------------------------------------------------------------------
// Listing
// ---------------------------------------------------------------------------

/// An object in the bucket.
#[derive(Debug)]
pub struct ListedObject {
    pub key: String,
    pub last_modified: String,
    pub size: u64,
}

/// What is known of a clip but for how its time of change is shown.
#[verifier::ext_equal]
pub struct ClipFacts {
    pub key: Seq<char>,
    pub last_modified: Seq<char>,
    pub size_bytes: u64,
    pub source: ClipSource,
}

/// What an object in the bucket tells of a clip.
pub open spec fn object_facts(objects: Seq<ListedObject>) -> Seq<ClipFacts> {
    objects.map_values(
        |o: ListedObject|
            ClipFacts {
                key: o.key@,
                last_modified: o.last_modified@,
                size_bytes: o.size,
                source: ClipSource::Uploaded,
            },
    )
}

/// What is known of some clips but for how their time of change is shown.
pub open spec fn clip_facts(clips: Seq<ClipInfoView>) -> Seq<ClipFacts> {
    clips.map_values(
        |c: ClipInfoView|
            ClipFacts {
                key: c.key,
                last_modified: c.last_modified,
                size_bytes: c.size_bytes,
                source: c.source,
            },
    )
}

/// The key by which clips are sorted: the time of change as the bucket tells it.
pub open spec fn modified_key() -> spec_fn(ClipFacts) -> Seq<char> {
    |c: ClipFacts| c.last_modified
}

/// Whether some clips are those of the given objects, the latest change first, each with
/// its time of change as the user reads it.
pub open spec fn is_listing(facts: Seq<ClipFacts>, clips: Seq<ClipInfoView>) -> bool {
    &&& clip_facts(clips) == sorted_by_key(facts, modified_key(), true)
    &&& forall|i: int|
        0 <= i < clips.len() ==> clip_display(
            (#[trigger] clips[i]).last_modified,
            clips[i].last_modified_display,
        )
}

/// What is to be listed.
#[derive(Debug)]
pub struct ListPlan {
    pub target: BucketTarget,
    pub prefix: String,
}

/// What a `ListPlan` holds.
#[verifier::ext_equal]
pub struct ListPlanView {
    pub target: BucketTargetView,
    pub prefix: Seq<char>,
}

impl View for ListPlan {
    type V = ListPlanView;

    open spec fn view(&self) -> ListPlanView {
        ListPlanView { target: self.target@, prefix: self.prefix@ }
    }
}

/// What a plan holds, where there is one.
pub open spec fn optional_list(plan: Option<ListPlan>) -> Option<ListPlanView> {
    match plan {
        Some(p) => Some(p@),
        None => None,
    }
}

/// Plans the listing of the uploaded clips: there is nothing to list where the settings
/// name no bucket.
pub fn list_clips(config: &S3Config) -> (plan: Option<ListPlan>)
    ensures
        optional_list(plan) == (if config@.is_named() {
            Some(ListPlanView { target: target_of(config@), prefix: CLIP_PREFIX@ })
        } else {
            None
        }),
{
    if !config.names_bucket() {
        return None;
    }
    Some(ListPlan { target: bucket_target(config), prefix: CLIP_PREFIX.to_owned() })
}

/// Makes the list of clips out of the objects in the bucket, the latest change first;
/// objects that changed at the same time keep their order.
pub fn listed_clips(objects: &Vec<ListedObject>) -> (clips: Vec<ClipInfo>)
    ensures
        is_listing(object_facts(objects@), clip_views(clips@)),
{
    let mut clips: Vec<ClipInfo> = Vec::new();
    let mut keys: Vec<String> = Vec::new();
    let ghost facts = object_facts(objects@);
    assert(clip_facts(clip_views(clips@)) =~= Seq::empty());
    assert(facts.take(0) =~= Seq::empty());
    assert(key_views(keys@) =~= keys_of(clip_facts(clip_views(clips@)), modified_key()));
    for i in 0..objects.len()
        invariant
            facts == object_facts(objects@),
            is_listing(facts.take(i as int), clip_views(clips@)),
            key_views(keys@) == keys_of(clip_facts(clip_views(clips@)), modified_key()),
    {
        let ghost before = clip_views(clips@);
        let object = &objects[i];
        let clip = ClipInfo {
            key: object.key.clone(),
            last_modified: object.last_modified.clone(),
            last_modified_display: format_clip_timestamp(object.last_modified.as_str()),
            size_bytes: object.size,
            source: ClipSource::Uploaded,
        };
        let key = object.last_modified.clone();
        let at = find_slot(&keys, key.as_str(), true);
        assert(keys@.len() == key_views(keys@).len() == clips@.len());
        let ghost view = clip@;
        let ghost key_view = key@;
        clips.insert(at, clip);
        keys.insert(at, key);
        proof {
            let after = clip_views(clips@);
            let fact = facts[i as int];
            assert(facts.take(i + 1).drop_last() =~= facts.take(i as int));
            assert(facts.take(i + 1).last() == fact);
            assert(after =~= before.insert(at as int, view));
            assert(clip_facts(after) =~= clip_facts(before).insert(at as int, fact));
            assert(key_views(keys@) =~= keys_of(clip_facts(before), modified_key()).insert(
                at as int,
                key_view,
            ));
            assert(keys_of(clip_facts(after), modified_key()) =~= keys_of(
                clip_facts(before),
                modified_key(),
            ).insert(at as int, key_view));
            assert forall|k: int| 0 <= k < after.len() implies clip_display(
                (#[trigger] after[k]).last_modified,
                after[k].last_modified_display,
            ) by {
                if k < at {
                    assert(after[k] == before[k]);
                } else if k > at {
                    assert(after[k] == before[k - 1]);
                }
            }
        }
    }
    assert(facts.take(objects@.len() as int) =~= facts);
    clips
}

// ---------------------------------------------------------------------------
// Laws
// ---------------------------------------------------------------------------

/// Every clip is uploaded to where clips are listed.
pub proof fn clips_are_uploaded_where_they_are_listed(stamp: Seq<char>)
    ensures
        begins_with(named_key(stamp), CLIP_PREFIX@),
{
    assert(named_key(stamp).take(CLIP_PREFIX@.len() as int) =~= CLIP_PREFIX@);
}

/// A listing shows every object of the bucket, as often as it is there, and nothing else.
pub proof fn listing_shows_every_object(facts: Seq<ClipFacts>, clips: Seq<ClipInfoView>)
    requires
        is_listing(facts, clips),
    ensures
        clip_facts(clips).to_multiset() == facts.to_multiset(),
        clips.len() == facts.len(),
{
    sorted_by_key_keeps_items(facts, modified_key(), true);
}

/// A listing has the latest change first: no clip stands before one that changed later.
pub proof fn listing_has_latest_first(facts: Seq<ClipFacts>, clips: Seq<ClipInfoView>)
    requires
        is_listing(facts, clips),
    ensures
        in_key_order(keys_of(clip_facts(clips), modified_key()), true),
{
    sorted_by_key_is_ordered(facts, modified_key(), true);
}

/// Objects that changed at the same time are listed in the order in which they came.
pub proof fn listing_is_stable(facts: Seq<ClipFacts>, clips: Seq<ClipInfoView>, time: Seq<char>)
    requires
        is_listing(facts, clips),
    ensures
        with_key(clip_facts(clips), modified_key(), time) == with_key(facts, modified_key(), time),
{
    sorted_by_key_is_stable(facts, modified_key(), true, time);
}

/// A clip is downloaded to a file that is called like the clip in its folder.
pub proof fn file_is_named_like_the_clip(folder: Seq<char>, name: Seq<char>)
    requires
        forall|i: int| 0 <= i < name.len() ==> name[i] != '/',
    ensures
        last_part(folder.push('/') + name) == name,
        last_part(name) == name,
    decreases name.len(),
{
    let key = folder.push('/') + name;
    if name.len() == 0 {
        assert(key =~= folder.push('/'));
        assert(last_part(key) =~= name);
        assert(last_part(name) =~= name);
    } else {
        assert forall|i: int| 0 <= i < name.drop_last().len() implies name.drop_last()[i] != '/' by {
            assert(name.drop_last()[i] == name[i]);
        }
        file_is_named_like_the_clip(folder, name.drop_last());
        assert(key.drop_last() =~= folder.push('/') + name.drop_last());
        assert(key.last() == name.last());
        assert(name[name.len() - 1] != '/');
        assert(last_part(key) =~= name);
        assert(last_part(name) =~= name);
    }
}

/// A clip is called by the time at which it was captured, in the folder for recordings.
pub proof fn a_clip_is_called_by_its_time(captured_at: Timestamp)
    ensures
        clip_key(captured_at) == "recordings/"@ + zoned(
            captured_at.whole_secs(),
            captured_at.extra_nanos(),
            "%Y%m%dT%H%M%S%.3fZ"@,
            0,
        ) + ".wav"@,
{
}

/// A request succeeds exactly with a status in the two hundreds.
pub proof fn only_two_hundreds_succeed(status: u16)
    ensures
        is_success(status) <==> 200 <= status <= 299,
{
}

/// Requests go to the bucket of the settings, with its own endpoint and keys.
pub proof fn requests_go_to_the_configured_bucket(config: S3ConfigView)
    ensures
        target_of(config).endpoint == config.endpoint_url,
        target_of(config).bucket == config.bucket,
        target_of(config).access_key == config.access_key,
        target_of(config).secret_key == config.secret_key,
        target_of(config).region == "us-east-1"@,
{
}

/// Whether a clip is listed as what an object in the bucket is.
pub open spec fn shows_object(clip: ClipInfoView, object: ListedObject) -> bool {
    &&& clip.key == object.key@
    &&& clip.last_modified == object.last_modified@
    &&& clip.size_bytes == object.size
    &&& clip.source == ClipSource::Uploaded
}

proof fn lemma_same_facts(objects: Seq<ListedObject>, clips: Seq<ClipInfoView>, f: ClipFacts)
    requires
        is_listing(object_facts(objects), clips),
    ensures
        clip_facts(clips).contains(f) == object_facts(objects).contains(f),
{
    broadcast use vstd::seq_lib::group_to_multiset_ensures;

    listing_shows_every_object(object_facts(objects), clips);
    assert(clip_facts(clips).contains(f) <==> clip_facts(clips).to_multiset().count(f) > 0);
    assert(object_facts(objects).contains(f) <==> object_facts(objects).to_multiset().count(f)
        > 0);
}

/// Every clip in a listing is an object in the bucket, with the object's own name, time of
/// change and size.
pub proof fn a_listed_clip_is_in_the_bucket(
    objects: Seq<ListedObject>,
    clips: Seq<ClipInfoView>,
    i: int,
) -> (j: int)
    requires
        is_listing(object_facts(objects), clips),
        0 <= i < clips.len(),
    ensures
        0 <= j < objects.len(),
        shows_object(clips[i], objects[j]),
        clip_display(clips[i].last_modified, clips[i].last_modified_display),
{
    let f = clip_facts(clips)[i];
    assert(clip_facts(clips).contains(f));
    lemma_same_facts(objects, clips, f);
    let facts = object_facts(objects);
    choose|j: int| 0 <= j < facts.len() && facts[j] == f
}

/// Every object in the bucket is in the listing, and there are as many clips as objects.
pub proof fn an_object_in_the_bucket_is_listed(
    objects: Seq<ListedObject>,
    clips: Seq<ClipInfoView>,
    j: int,
) -> (i: int)
    requires
        is_listing(object_facts(objects), clips),
        0 <= j < objects.len(),
    ensures
        0 <= i < clips.len(),
        shows_object(clips[i], objects[j]),
        clips.len() == objects.len(),
{
    let f = object_facts(objects)[j];
    assert(object_facts(objects).contains(f));
    lemma_same_facts(objects, clips, f);
    listing_shows_every_object(object_facts(objects), clips);
    let facts = clip_facts(clips);
    choose|i: int| 0 <= i < facts.len() && facts[i] == f
}

/// No clip in a listing stands before one that changed later.
pub proof fn a_later_clip_stands_first(
    facts: Seq<ClipFacts>,
    clips: Seq<ClipInfoView>,
    i: int,
    j: int,
)
    requires
        is_listing(facts, clips),
        0 <= i < j < clips.len(),
    ensures
        !text_before(clips[i].last_modified, clips[j].last_modified),
{
    listing_has_latest_first(facts, clips);
    let keys = keys_of(clip_facts(clips), modified_key());
    assert(keys[i] == clips[i].last_modified && keys[j] == clips[j].last_modified);
    assert(!key_before(keys[j], keys[i], true));
}

/// The name of a file is what stands behind the last slash: it has no slash, and the name of
/// the clip ends with it, at its beginning or behind a slash.
pub proof fn a_file_name_has_no_slash(key: Seq<char>)
    ensures
        forall|i: int| 0 <= i < last_part(key).len() ==> #[trigger] last_part(key)[i] != '/',
        last_part(key).len() <= key.len(),
        key.skip(key.len() - last_part(key).len()) == last_part(key),
        last_part(key).len() < key.len() ==> key[key.len() - last_part(key).len() - 1] == '/',
    decreases key.len(),
{
    if key.len() > 0 && key.last() != '/' {
        let rest = key.drop_last();
        a_file_name_has_no_slash(rest);
        let part = last_part(rest);
        assert(last_part(key) =~= part.push(key.last()));
        assert forall|i: int| 0 <= i < last_part(key).len() implies #[trigger] last_part(key)[i]
            != '/' by {
            if i < part.len() {
                assert(last_part(key)[i] == part[i]);
            }
        }
        let cut = key.len() - last_part(key).len();
        assert forall|i: int| 0 <= i < last_part(key).len() implies key.skip(cut)[i] == last_part(
            key,
        )[i] by {
            if i < part.len() {
                assert(rest.skip(cut)[i] == part[i]);
            }
        }
        assert(key.skip(cut) =~= last_part(key));
    } else {
        assert(key.skip(key.len() as int) =~= Seq::<char>::empty());
    }
}

/// Lists of clips are seen clip by clip, in order.
pub proof fn clips_are_seen_one_by_one(clips: Seq<ClipInfo>)
    ensures
        clip_views(clips).len() == clips.len(),
        forall|i: int| 0 <= i < clips.len() ==> #[trigger] clip_views(clips)[i] == clips[i]@,
{
}

/// What stands for a clip, an outcome or a plan that may be missing holds what they hold.
pub proof fn what_is_there_of_clips_is_seen(
    clip: ClipInfo,
    plan: ListPlan,
    outcome: UploadOutcome,
    error: String,
)
    ensures
        optional_clip(Some(clip)) == Some(clip@),
        optional_clip(None) is None,
        optional_list(Some(plan)) == Some(plan@),
        optional_list(None) is None,
        outcome_view(Ok(outcome)) == Ok::<UploadOutcomeView, Seq<char>>(outcome@),
        outcome_view(Err(error)) == Err::<UploadOutcomeView, Seq<char>>(error@),
{
}

} // verus!
