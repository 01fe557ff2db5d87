//! The settings of the application.

use vstd::prelude::*;

use crate::level::Level;
use crate::text::{is_blank, is_blank_text, parse_whole_number, whole_number};

verus! {

/// The name that stands for the system's default device.
pub const DEFAULT_DEVICE_NAME: &'static str = "__default__";

/// The bits of the level 0.15, at which recording starts unless the user says otherwise.
pub const DEFAULT_THRESHOLD_BITS: u32 = 0x3e19_999a;

/// Seconds of sound kept before a clip starts, where the setting is no number.
pub const DEFAULT_RING_SECS: usize = 3;

/// Seconds of silence that end a clip, where the setting is no number.
pub const DEFAULT_KEEPALIVE_SECS: u64 = 10;

/// Where clips are uploaded to.
#[derive(Debug)]
pub struct S3Config {
    pub endpoint_url: String,
    pub bucket: String,
    pub access_key: String,
    pub secret_key: String,
}

/// What an `S3Config` holds.
#[verifier::ext_equal]
pub struct S3ConfigView {
    pub endpoint_url: Seq<char>,
    pub bucket: Seq<char>,
    pub access_key: Seq<char>,
    pub secret_key: Seq<char>,
}

impl View for S3Config {
    type V = S3ConfigView;

    open spec fn view(&self) -> S3ConfigView {
        S3ConfigView {
            endpoint_url: self.endpoint_url@,
            bucket: self.bucket@,
            access_key: self.access_key@,
            secret_key: self.secret_key@,
        }
    }
}

impl Clone for S3Config {
    fn clone(&self) -> (copy: Self)
        ensures
            copy == *self,
    {
        S3Config {
            endpoint_url: self.endpoint_url.clone(),
            bucket: self.bucket.clone(),
            access_key: self.access_key.clone(),
            secret_key: self.secret_key.clone(),
        }
    }
}

impl Default for S3Config {
    fn default() -> (config: Self)
        ensures
            config@ == empty_s3(),
    {
        S3Config {
            endpoint_url: String::new(),
            bucket: String::new(),
            access_key: String::new(),
            secret_key: String::new(),
        }
    }
}

/// A bucket of which nothing is set.
pub open spec fn empty_s3() -> S3ConfigView {
    S3ConfigView {
        endpoint_url: Seq::empty(),
        bucket: Seq::empty(),
        access_key: Seq::empty(),
        secret_key: Seq::empty(),
    }
}

impl S3ConfigView {
    /// Whether a bucket is named: none of the fields is empty.
    pub open spec fn is_named(self) -> bool {
        &&& self.endpoint_url.len() > 0
        &&& self.bucket.len() > 0
        &&& self.access_key.len() > 0
        &&& self.secret_key.len() > 0
    }

    /// Whether clips are uploaded: a bucket is named, and not all of its fields are blank.
    pub open spec fn uploads(self) -> bool {
        self.is_named() && self.any_filled()
    }

    /// Whether some field holds more than white space.
    pub open spec fn any_filled(self) -> bool {
        ||| !is_blank(self.endpoint_url)
        ||| !is_blank(self.bucket)
        ||| !is_blank(self.access_key)
        ||| !is_blank(self.secret_key)
    }

    /// Whether every field holds more than white space.
    pub open spec fn all_filled(self) -> bool {
        &&& !is_blank(self.endpoint_url)
        &&& !is_blank(self.bucket)
        &&& !is_blank(self.access_key)
        &&& !is_blank(self.secret_key)
    }
}

impl S3Config {
    /// Whether a bucket is named.
    pub fn names_bucket(&self) -> (yes: bool)
        ensures
            yes == self@.is_named(),
    {
        !(self.endpoint_url.as_str().is_empty() || self.bucket.as_str().is_empty()
            || self.access_key.as_str().is_empty() || self.secret_key.as_str().is_empty())
    }

    /// Whether clips are uploaded.
    pub fn uploads_enabled(&self) -> (yes: bool)
        ensures
            yes == self@.uploads(),
    {
        self.names_bucket() && !(is_blank_text(self.endpoint_url.as_str()) && is_blank_text(
            self.bucket.as_str(),
        ) && is_blank_text(self.access_key.as_str()) && is_blank_text(self.secret_key.as_str()))
    }
}

/// The settings of the application.
#[derive(Debug)]
pub struct AppConfig {
    pub input_device: String,
    pub output_device: String,
    pub input_threshold: Level,
    pub output_threshold: Level,
    pub ring_buffer_secs: String,
    pub keepalive_secs: String,
    pub s3: S3Config,
}

/// What an `AppConfig` holds.
#[verifier::ext_equal]
pub struct AppConfigView {
    pub input_device: Seq<char>,
    pub output_device: Seq<char>,
    pub input_threshold: Level,
    pub output_threshold: Level,
    pub ring_buffer_secs: Seq<char>,
    pub keepalive_secs: Seq<char>,
    pub s3: S3ConfigView,
}

impl View for AppConfig {
    type V = AppConfigView;

    open spec fn view(&self) -> AppConfigView {
        AppConfigView {
            input_device: self.input_device@,
            output_device: self.output_device@,
            input_threshold: self.input_threshold,
            output_threshold: self.output_threshold,
            ring_buffer_secs: self.ring_buffer_secs@,
            keepalive_secs: self.keepalive_secs@,
            s3: self.s3@,
        }
    }
}

impl Clone for AppConfig {
    fn clone(&self) -> (copy: Self)
        ensures
            copy == *self,
    {
        AppConfig {
            input_device: self.input_device.clone(),
            output_device: self.output_device.clone(),
            input_threshold: self.input_threshold,
            output_threshold: self.output_threshold,
            ring_buffer_secs: self.ring_buffer_secs.clone(),
            keepalive_secs: self.keepalive_secs.clone(),
            s3: self.s3.clone(),
        }
    }
}

/// The settings of an application that was never configured.
pub open spec fn default_config() -> AppConfigView {
    AppConfigView {
        input_device: Seq::empty(),
        output_device: Seq::empty(),
        input_threshold: Level { bits: DEFAULT_THRESHOLD_BITS },
        output_threshold: Level { bits: DEFAULT_THRESHOLD_BITS },
        ring_buffer_secs: "3"@,
        keepalive_secs: "10"@,
        s3: empty_s3(),
    }
}

impl Default for AppConfig {
    fn default() -> (config: Self)
        ensures
            config@ == default_config(),
    {
        AppConfig {
            input_device: String::new(),
            output_device: String::new(),
            input_threshold: Level { bits: DEFAULT_THRESHOLD_BITS },
            output_threshold: Level { bits: DEFAULT_THRESHOLD_BITS },
            ring_buffer_secs: "3".to_owned(),
            keepalive_secs: "10".to_owned(),
            s3: S3Config::default(),
        }
    }
}

/// A device's name, or that of the default device where there is none.
pub open spec fn device_or_default(name: Seq<char>) -> Seq<char> {
    if name.len() == 0 {
        DEFAULT_DEVICE_NAME@
    } else {
        name
    }
}

/// The settings to start with, given those that could be loaded.
pub open spec fn starting_config(loaded: Option<AppConfigView>) -> AppConfigView {
    let config = match loaded {
        Some(c) => c,
        None => default_config(),
    };
    AppConfigView {
        input_device: device_or_default(config.input_device),
        output_device: device_or_default(config.output_device),
        ..config
    }
}

/// What some settings hold, where there are any.
pub open spec fn optional_config(config: Option<AppConfig>) -> Option<AppConfigView> {
    match config {
        Some(c) => Some(c@),
        None => None,
    }
}

/// The settings to start with: those that could be loaded, else the defaults; the
/// default device wherever no device is named.
pub fn initial_config(loaded: Option<AppConfig>) -> (config: AppConfig)
    ensures
        config@ == starting_config(optional_config(loaded)),
{
    let mut config = match loaded {
        Some(c) => c,
        None => AppConfig::default(),
    };
    if config.input_device.as_str().is_empty() {
        config.input_device = DEFAULT_DEVICE_NAME.to_owned();
    }
    if config.output_device.as_str().is_empty() {
        config.output_device = DEFAULT_DEVICE_NAME.to_owned();
    }
    config
}

// ---------------------------------------------------------------------------
// Numbers in the settings
// ---------------------------------------------------------------------------

/// The seconds of sound to keep before a clip starts.
pub open spec fn ring_secs(text: Seq<char>) -> usize {
    match whole_number(text) {
        Some(n) if n <= usize::MAX => n as usize,
        _ => DEFAULT_RING_SECS,
    }
}

/// The seconds of silence that end a clip.
pub open spec fn keepalive(text: Seq<char>) -> u64 {
    match whole_number(text) {
        Some(n) if n <= u64::MAX => n as u64,
        _ => DEFAULT_KEEPALIVE_SECS,
    }
}

impl AppConfig {
    /// The seconds of sound to keep before a clip starts.
    pub fn ring_seconds(&self) -> (secs: usize)
        ensures
            secs == ring_secs(self@.ring_buffer_secs),
    {
        match parse_whole_number(self.ring_buffer_secs.as_str(), usize::MAX as u64) {
            Some(n) => n as usize,
            None => DEFAULT_RING_SECS,
        }
    }

    /// The seconds of silence that end a clip.
    pub fn keepalive_seconds(&self) -> (secs: u64)
        ensures
            secs == keepalive(self@.keepalive_secs),
    {
        match parse_whole_number(self.keepalive_secs.as_str(), u64::MAX) {
            Some(n) => n,
            None => DEFAULT_KEEPALIVE_SECS,
        }
    }
}

/// Whether a text is a whole number above zero and no larger than `max`.
pub open spec fn is_positive(text: Seq<char>, max: nat) -> bool {
    match whole_number(text) {
        Some(n) => 0 < n <= max,
        None => false,
    }
}

/// What is wrong with some settings, if anything is: the first of these that holds.
pub open spec fn settings_problem(config: AppConfigView) -> Option<Seq<char>> {
    if !is_positive(config.ring_buffer_secs, usize::MAX as nat) {
        Some("Ring buffer seconds must be a whole number greater than 0"@)
    } else if !is_positive(config.keepalive_secs, u64::MAX as nat) {
        Some("Keepalive seconds must be a whole number greater than 0"@)
    } else if config.s3.any_filled() && !config.s3.all_filled() {
        Some("Complete all S3 fields or leave all of them blank"@)
    } else {
        None
    }
}

/// What a text holds, where there is one.
pub open spec fn optional_text(text: Option<String>) -> Option<Seq<char>> {
    match text {
        Some(t) => Some(t@),
        None => None,
    }
}

/// Says what is wrong with some settings, if anything is.
pub fn validate_settings(config: &AppConfig) -> (problem: Option<String>)
    ensures
        optional_text(problem) == settings_problem(config@),
{
    match parse_whole_number(config.ring_buffer_secs.as_str(), usize::MAX as u64) {
        Some(n) if n > 0 => {},
        _ => {
            return Some("Ring buffer seconds must be a whole number greater than 0".to_owned());
        },
    }
    match parse_whole_number(config.keepalive_secs.as_str(), u64::MAX) {
        Some(n) if n > 0 => {},
        _ => {
            return Some("Keepalive seconds must be a whole number greater than 0".to_owned());
        },
    }
    let mut configured_fields: u8 = 0;
    if !is_blank_text(config.s3.endpoint_url.as_str()) {
        configured_fields = configured_fields + 1;
    }
    if !is_blank_text(config.s3.bucket.as_str()) {
        configured_fields = configured_fields + 1;
    }
    if !is_blank_text(config.s3.access_key.as_str()) {
        configured_fields = configured_fields + 1;
    }
    if !is_blank_text(config.s3.secret_key.as_str()) {
        configured_fields = configured_fields + 1;
    }
    if configured_fields > 0 && configured_fields < 4 {
        return Some("Complete all S3 fields or leave all of them blank".to_owned());
    }
    None
}

// ---------------------------------------------------------------------------
// Laws
// ---------------------------------------------------------------------------

/// Settings in which nothing is wrong mean what they say: both numbers are taken as they
/// are written, and neither is zero.
pub proof fn valid_settings_are_taken_as_written(config: AppConfigView)
    requires
        settings_problem(config) is None,
    ensures
        whole_number(config.ring_buffer_secs) == Some(ring_secs(config.ring_buffer_secs) as nat),
        whole_number(config.keepalive_secs) == Some(keepalive(config.keepalive_secs) as nat),
        ring_secs(config.ring_buffer_secs) > 0,
        keepalive(config.keepalive_secs) > 0,
{
}

/// With settings in which nothing is wrong, clips are uploaded exactly where a field of the
/// bucket is filled with more than white space, and then every field is.
pub proof fn valid_settings_upload_or_not(config: AppConfigView)
    requires
        settings_problem(config) is None,
    ensures
        config.s3.uploads() <==> config.s3.any_filled(),
        config.s3.uploads() <==> config.s3.all_filled(),
{
}

/// Clips are not uploaded where all fields of the bucket are left blank: each of them empty
/// or nothing but white space.
pub proof fn blank_fields_disable_uploads(s3: S3ConfigView)
    requires
        is_blank(s3.endpoint_url),
        is_blank(s3.bucket),
        is_blank(s3.access_key),
        is_blank(s3.secret_key),
    ensures
        !s3.uploads(),
{
}

/// Clips are not uploaded where a field of the bucket is left empty.
pub proof fn an_empty_field_disables_uploads(s3: S3ConfigView)
    requires
        s3.endpoint_url.len() == 0 || s3.bucket.len() == 0 || s3.access_key.len() == 0
            || s3.secret_key.len() == 0,
    ensures
        !s3.uploads(),
{
}

/// There is nothing wrong with the settings of an application that was never configured.
/// They keep three seconds of sound, end a clip after ten seconds of silence and upload
/// nothing.
pub proof fn default_settings_are_valid()
    ensures
        settings_problem(default_config()) is None,
        ring_secs(default_config().ring_buffer_secs) == 3,
        keepalive(default_config().keepalive_secs) == 10,
        !default_config().s3.uploads(),
{
    reveal_strlit("3");
    reveal_strlit("10");
    reveal_with_fuel(crate::text::number, 3);
    let three = "3"@;
    let ten = "10"@;
    assert(three.drop_last() =~= Seq::<char>::empty());
    assert(ten.drop_last() =~= seq!['1']);
    assert(seq!['1'].drop_last() =~= Seq::<char>::empty());
    assert(whole_number(three) == Some(3nat));
    assert(whole_number(ten) == Some(10nat));
}

/// Settings that were saved are started with as they were saved: every number, both
/// thresholds and the whole bucket, and each device that is named. Where no device is
/// named, it is the default one.
pub proof fn saved_settings_are_kept(loaded: AppConfigView)
    ensures
        ({
            let config = starting_config(Some(loaded));
            &&& config.input_threshold == loaded.input_threshold
            &&& config.output_threshold == loaded.output_threshold
            &&& config.ring_buffer_secs == loaded.ring_buffer_secs
            &&& config.keepalive_secs == loaded.keepalive_secs
            &&& config.s3.endpoint_url == loaded.s3.endpoint_url
            &&& config.s3.bucket == loaded.s3.bucket
            &&& config.s3.access_key == loaded.s3.access_key
            &&& config.s3.secret_key == loaded.s3.secret_key
            &&& loaded.input_device.len() > 0 ==> config.input_device == loaded.input_device
            &&& loaded.output_device.len() > 0 ==> config.output_device == loaded.output_device
            &&& loaded.input_device.len() == 0 ==> config.input_device == "__default__"@
            &&& loaded.output_device.len() == 0 ==> config.output_device == "__default__"@
        }),
{
}

/// Starting again with the settings that an application started with changes nothing.
pub proof fn starting_again_changes_nothing(loaded: Option<AppConfigView>)
    ensures
        starting_config(Some(starting_config(loaded))) == starting_config(loaded),
{
    reveal_strlit("__default__");
}

/// Without saved settings an application starts with 15 percent for both thresholds, three
/// and ten seconds, no bucket and the default devices.
pub proof fn first_settings()
    ensures
        ({
            let config = starting_config(None);
            &&& config.input_threshold.bits == 0x3e19_999a
            &&& config.output_threshold.bits == 0x3e19_999a
            &&& config.ring_buffer_secs == "3"@
            &&& config.keepalive_secs == "10"@
            &&& config.s3.endpoint_url.len() == 0
            &&& config.s3.bucket.len() == 0
            &&& config.s3.access_key.len() == 0
            &&& config.s3.secret_key.len() == 0
            &&& config.input_device == "__default__"@
            &&& config.output_device == "__default__"@
        }),
{
}

/// A number in the settings that fits is taken as it is, zero too; what is no number, or one
/// that does not fit, means three seconds of sound kept and ten seconds of silence.
pub proof fn numbers_are_taken_or_replaced(text: Seq<char>, n: nat)
    ensures
        whole_number(text) == Some(n) && n <= usize::MAX ==> ring_secs(text) == n,
        whole_number(text) == Some(n) && n > usize::MAX ==> ring_secs(text) == 3,
        whole_number(text) is None ==> ring_secs(text) == 3,
        whole_number(text) == Some(n) && n <= u64::MAX ==> keepalive(text) == n,
        whole_number(text) == Some(n) && n > u64::MAX ==> keepalive(text) == 10,
        whole_number(text) is None ==> keepalive(text) == 10,
{
}

/// Nothing is wrong with settings exactly where both numbers are above zero and fit and the
/// bucket's fields are all filled or all blank; otherwise the user is told of the first of
/// these that fails.
pub proof fn the_first_problem_is_told(config: AppConfigView)
    ensures
        ({
            let ring = whole_number(config.ring_buffer_secs);
            let silence = whole_number(config.keepalive_secs);
            let ring_fits = ring is Some && 0 < ring->0 <= usize::MAX;
            let silence_fits = silence is Some && 0 < silence->0 <= u64::MAX;
            let url = is_blank(config.s3.endpoint_url);
            let bucket = is_blank(config.s3.bucket);
            let access = is_blank(config.s3.access_key);
            let secret = is_blank(config.s3.secret_key);
            let alike = url == bucket && bucket == access && access == secret;
            &&& settings_problem(config) is None <==> ring_fits && silence_fits && alike
            &&& !ring_fits ==> settings_problem(config) == Some(
                "Ring buffer seconds must be a whole number greater than 0"@,
            )
            &&& ring_fits && !silence_fits ==> settings_problem(config) == Some(
                "Keepalive seconds must be a whole number greater than 0"@,
            )
            &&& ring_fits && silence_fits && !alike ==> settings_problem(config) == Some(
                "Complete all S3 fields or leave all of them blank"@,
            )
        }),
{
}

/// Whether anything is wrong with settings does not depend on the devices and thresholds.
pub proof fn devices_and_thresholds_are_never_wrong(a: AppConfigView, b: AppConfigView)
    requires
        a.ring_buffer_secs == b.ring_buffer_secs,
        a.keepalive_secs == b.keepalive_secs,
        a.s3 == b.s3,
    ensures
        settings_problem(a) == settings_problem(b),
{
}

/// A bucket is named where each of its fields holds something, and clips are uploaded to it
/// unless all that they hold is white space.
pub proof fn a_bucket_needs_all_its_fields(s3: S3ConfigView)
    ensures
        s3.is_named() <==> s3.endpoint_url.len() > 0 && s3.bucket.len() > 0 && s3.access_key.len()
            > 0 && s3.secret_key.len() > 0,
        s3.uploads() <==> s3.is_named() && !(is_blank(s3.endpoint_url) && is_blank(s3.bucket)
            && is_blank(s3.access_key) && is_blank(s3.secret_key)),
{
}

/// What stands for a text or for settings that may be missing holds what they hold.
pub proof fn what_is_there_is_seen(text: String, config: AppConfig)
    ensures
        optional_text(Some(text)) == Some(text@),
        optional_text(None) is None,
        optional_config(Some(config)) == Some(config@),
        optional_config(None) is None,
{
}

} // verus!
