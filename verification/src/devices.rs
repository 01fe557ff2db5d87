//! The audio devices that the user can choose from.

use vstd::prelude::*;

use crate::config::{optional_text, DEFAULT_DEVICE_NAME};
use crate::order::{
    find_slot, in_key_order, key_before, key_views, keys_of, sorted_by_key,
    sorted_by_key_is_ordered, sorted_by_key_is_stable, sorted_by_key_keeps_items, text_before,
    with_key,
};
use crate::text::{
    a_suffix_is_taken_off_once, begins_with, finishes_with, is_blank, nothing_to_replace,
    occurs_at, the_first_occurrence_is_replaced, trimming_forgets_what_is_around,
    trimming_takes_the_ends_only,
};
use crate::text::{
    chars_of, copy_range, drop_suffix, join2, lowercase, lowercase_text, replace_chars,
    replaced, same_text, single_space, single_spaced, stands_at, string_of, trim_chars, trim_ends,
    trimmed, without_suffix,
};

verus! {

/// A device that the user can choose: what is shown and what it is called.
#[derive(Debug, PartialEq, Eq)]
pub struct DeviceOption {
    pub label: String,
    pub raw_name: String,
}

/// What a `DeviceOption` holds.
#[verifier::ext_equal]
pub struct DeviceOptionView {
    pub label: Seq<char>,
    pub raw_name: Seq<char>,
}

impl View for DeviceOption {
    type V = DeviceOptionView;

    open spec fn view(&self) -> DeviceOptionView {
        DeviceOptionView { label: self.label@, raw_name: self.raw_name@ }
    }
}

impl Clone for DeviceOption {
    fn clone(&self) -> (copy: Self)
        ensures
            copy == *self,
    {
        DeviceOption { label: self.label.clone(), raw_name: self.raw_name.clone() }
    }
}

impl DeviceOption {
    /// The text by which the user knows the device.
    pub fn to_text(&self) -> (text: String)
        ensures
            text@ == self@.label,
    {
        self.label.clone()
    }
}

/// What some options hold.
pub open spec fn option_views(options: Seq<DeviceOption>) -> Seq<DeviceOptionView> {
    options.map_values(|o: DeviceOption| o@)
}

// ---------------------------------------------------------------------------
// Labels
// ---------------------------------------------------------------------------

/// The name with the sound servers' names in their usual spelling.
pub open spec fn spelled(name: Seq<char>) -> Seq<char> {
    replaced(
        replaced(trimmed(name), "pipewire"@, "PipeWire"@),
        "pulseaudio"@,
        "PulseAudio"@,
    )
}

/// The name without the sound server behind it: each of the four endings goes once, in
/// this order.
pub open spec fn without_server(name: Seq<char>) -> Seq<char> {
    without_suffix(
        without_suffix(
            without_suffix(without_suffix(name, " on PipeWire"@), " on PulseAudio"@),
            " (PipeWire)"@,
        ),
        " (PulseAudio)"@,
    )
}

/// The name without a prefix and, where it had it, with spaces for its dots.
pub open spec fn without_prefix(name: Seq<char>, prefix: Seq<char>) -> Seq<char> {
    if begins_with(name, prefix) {
        replaced(name.skip(prefix.len() as int), seq!['.'], seq![' '])
    } else {
        name
    }
}

/// The label before it is known whether anything is left of the name.
pub open spec fn cleaned(name: Seq<char>) -> Seq<char> {
    let bare = without_prefix(
        without_prefix(without_server(spelled(name)), "alsa_input."@),
        "alsa_output."@,
    );
    trimmed(trim_ends(single_spaced(bare), Some('-')))
}

/// The label of a device: its name cleaned up, or the name itself where nothing is left
/// of it.
pub open spec fn device_label(name: Seq<char>) -> Seq<char> {
    if cleaned(name).len() == 0 {
        name
    } else {
        cleaned(name)
    }
}

/// Drops a prefix, where it is there, and turns the dots behind it into spaces.
fn drop_prefix(v: Vec<char>, prefix: &Vec<char>) -> (result: Vec<char>)
    ensures
        result@ == without_prefix(v@, prefix@),
{
    assert(v@.skip(0) =~= v@);
    if !stands_at(&v, 0, prefix) {
        return v;
    }
    let rest = copy_range(&v, prefix.len(), v.len());
    assert(rest@ =~= v@.skip(prefix@.len() as int));
    let mut dot: Vec<char> = Vec::new();
    dot.push('.');
    let mut space: Vec<char> = Vec::new();
    space.push(' ');
    assert(dot@ =~= seq!['.']);
    assert(space@ =~= seq![' ']);
    replace_chars(&rest, &dot, &space)
}

/// Makes a label out of a device's name.
pub fn clean_device_label(name: &str) -> (label: String)
    ensures
        label@ == device_label(name@),
{
    let raw = chars_of(name);
    proof {
        reveal_strlit("pipewire");
        reveal_strlit("pulseaudio");
    }
    let mut v = trim_chars(&raw, None);
    v = replace_chars(&v, &chars_of("pipewire"), &chars_of("PipeWire"));
    v = replace_chars(&v, &chars_of("pulseaudio"), &chars_of("PulseAudio"));
    assert(v@ == spelled(name@));
    v = drop_suffix(v, &chars_of(" on PipeWire"));
    v = drop_suffix(v, &chars_of(" on PulseAudio"));
    v = drop_suffix(v, &chars_of(" (PipeWire)"));
    v = drop_suffix(v, &chars_of(" (PulseAudio)"));
    v = drop_prefix(v, &chars_of("alsa_input."));
    v = drop_prefix(v, &chars_of("alsa_output."));
    v = single_space(&v);
    v = trim_chars(&v, Some('-'));
    v = trim_chars(&v, None);
    if v.len() == 0 {
        name.to_owned()
    } else {
        string_of(&v)
    }
}

// ---------------------------------------------------------------------------
// The list of devices
// ---------------------------------------------------------------------------

/// A device's name where it can be used: it has to have a configuration and a name.
pub fn valid_device_name(supported: bool, name: Option<String>) -> (valid: Option<String>)
    ensures
        optional_text(valid) == (if supported {
            optional_text(name)
        } else {
            None
        }),
{
    if supported {
        name
    } else {
        None
    }
}

/// The names of the devices that can be used, where each has one.
pub open spec fn name_views(names: Seq<Option<String>>) -> Seq<Option<Seq<char>>> {
    names.map_values(|n: Option<String>| optional_text(n))
}

/// The option for a device: its label, marked where it is the system's default.
pub open spec fn option_for(
    raw_name: Seq<char>,
    default_name: Option<Seq<char>>,
) -> DeviceOptionView {
    DeviceOptionView {
        label: if default_name == Some(raw_name) {
            device_label(raw_name) + " (system default)"@
        } else {
            device_label(raw_name)
        },
        raw_name,
    }
}

/// The option that stands for the system's default device, whichever that is.
pub open spec fn default_option() -> DeviceOptionView {
    DeviceOptionView { label: "Default"@, raw_name: DEFAULT_DEVICE_NAME@ }
}

/// Whether one of the options has the given name.
pub open spec fn has_name(options: Seq<DeviceOptionView>, raw_name: Seq<char>) -> bool {
    exists|i: int| 0 <= i < options.len() && (#[trigger] options[i]).raw_name == raw_name
}

/// The options for the devices that can be used, in their order, each name once.
pub open spec fn found_options(
    names: Seq<Option<Seq<char>>>,
    default_name: Option<Seq<char>>,
) -> Seq<DeviceOptionView>
    decreases names.len(),
{
    if names.len() == 0 {
        Seq::empty()
    } else {
        let before = found_options(names.drop_last(), default_name);
        match names.last() {
            Some(name) if !has_name(before, name) => before.push(option_for(name, default_name)),
            _ => before,
        }
    }
}

/// The key by which options are sorted: the label in lower case.
pub open spec fn label_key() -> spec_fn(DeviceOptionView) -> Seq<char> {
    |o: DeviceOptionView| lowercase(o.label)
}

/// All that the user can choose from: the default device, then the others by label.
pub open spec fn all_options(
    names: Seq<Option<Seq<char>>>,
    default_name: Option<Seq<char>>,
) -> Seq<DeviceOptionView> {
    seq![default_option()] + sorted_by_key(found_options(names, default_name), label_key(), false)
}

/// Whether one of the options has the given name.
fn name_is_known(options: &Vec<DeviceOption>, raw_name: &String) -> (known: bool)
    ensures
        known == has_name(option_views(options@), raw_name@),
{
    for i in 0..options.len()
        invariant
            forall|k: int| 0 <= k < i ==> (#[trigger] options@[k]).raw_name@ != raw_name@,
    {
        if options[i].raw_name == *raw_name {
            assert(option_views(options@)[i as int].raw_name == raw_name@);
            return true;
        }
    }
    false
}

/// Sorts options by label, without regard to case; equal labels keep their order.
fn sort_options(options: &Vec<DeviceOption>) -> (sorted: Vec<DeviceOption>)
    ensures
        option_views(sorted@) == sorted_by_key(option_views(options@), label_key(), false),
{
    let mut sorted: Vec<DeviceOption> = Vec::new();
    let mut keys: Vec<String> = Vec::new();
    let ghost views = option_views(options@);
    assert(option_views(sorted@) =~= Seq::empty());
    for i in 0..options.len()
        invariant
            views == option_views(options@),
            option_views(sorted@) == sorted_by_key(views.take(i as int), label_key(), false),
            key_views(keys@) == keys_of(option_views(sorted@), label_key()),
    {
        let ghost before = option_views(sorted@);
        let key = lowercase_text(options[i].label.as_str());
        let at = find_slot(&keys, key.as_str(), false);
        assert(keys@.len() == key_views(keys@).len() == sorted@.len());
        proof {
            assert(views.take(i + 1).drop_last() =~= views.take(i as int));
            assert(views.take(i + 1).last() == options@[i as int]@);
        }
        let option = options[i].clone();
        let ghost view = option@;
        let ghost key_view = key@;
        sorted.insert(at, option);
        keys.insert(at, key);
        assert(option_views(sorted@) =~= before.insert(at as int, view));
        assert(key_views(keys@) =~= keys_of(before, label_key()).insert(at as int, key_view));
        assert(keys_of(option_views(sorted@), label_key()) =~= keys_of(before, label_key()).insert(
            at as int,
            key_view,
        ));
    }
    assert(views.take(options@.len() as int) =~= views);
    sorted
}

/// Lists what the user can choose from, given the devices that can be used, where each
/// has a name, and the name of the system's default device.
pub fn collect_device_options(
    names: &Vec<Option<String>>,
    default_name: Option<String>,
) -> (options: Vec<DeviceOption>)
    ensures
        option_views(options@) == all_options(name_views(names@), optional_text(default_name)),
{
    let ghost views = name_views(names@);
    let ghost default_view = optional_text(default_name);
    let mut found: Vec<DeviceOption> = Vec::new();
    assert(option_views(found@) =~= found_options(views.take(0), default_view));
    for i in 0..names.len()
        invariant
            views == name_views(names@),
            default_view == optional_text(default_name),
            option_views(found@) == found_options(views.take(i as int), default_view),
    {
        proof {
            assert(views.take(i + 1).drop_last() =~= views.take(i as int));
            assert(views.take(i + 1).last() == optional_text(names@[i as int]));
        }
        let ghost before = option_views(found@);
        if let Some(raw_name) = &names[i] {
            if !name_is_known(&found, raw_name) {
                let clean = clean_device_label(raw_name.as_str());
                let is_default = match &default_name {
                    Some(d) => *d == *raw_name,
                    None => false,
                };
                let label = if is_default {
                    join2(clean.as_str(), " (system default)")
                } else {
                    clean
                };
                let option = DeviceOption { label, raw_name: raw_name.clone() };
                let ghost view = option@;
                found.push(option);
                assert(view == option_for(raw_name@, default_view));
                assert(option_views(found@) =~= before.push(view));
            }
        }
    }
    assert(views.take(names@.len() as int) =~= views);
    let mut sorted = sort_options(&found);
    let ghost tail = option_views(sorted@);
    let first = DeviceOption {
        label: "Default".to_owned(),
        raw_name: DEFAULT_DEVICE_NAME.to_owned(),
    };
    sorted.insert(0, first);
    assert(option_views(sorted@) =~= seq![default_option()] + tail);
    sorted
}

// ---------------------------------------------------------------------------
// Choosing a device
// ---------------------------------------------------------------------------

/// The first option with the given name.
pub open spec fn first_named(
    options: Seq<DeviceOptionView>,
    raw_name: Seq<char>,
) -> Option<DeviceOptionView>
    decreases options.len(),
{
    if options.len() == 0 {
        None
    } else if options[0].raw_name == raw_name {
        Some(options[0])
    } else {
        first_named(options.skip(1), raw_name)
    }
}

/// What an option holds, where there is one.
pub open spec fn optional_device(option: Option<DeviceOption>) -> Option<DeviceOptionView> {
    match option {
        Some(o) => Some(o@),
        None => None,
    }
}

/// Finds the first option with the given name.
pub fn find_selected_device(
    raw_name: &str,
    options: &[DeviceOption],
) -> (selected: Option<DeviceOption>)
    ensures
        optional_device(selected) == first_named(option_views(options@), raw_name@),
{
    let ghost views = option_views(options@);
    assert(views.skip(0) =~= views);
    let mut i: usize = 0;
    while i < options.len()
        invariant
            i <= options@.len(),
            views == option_views(options@),
            first_named(views, raw_name@) == first_named(views.skip(i as int), raw_name@),
        decreases options@.len() - i,
    {
        assert(views.skip(i as int)[0] == options@[i as int]@);
        if same_text(options[i].raw_name.as_str(), raw_name) {
            return Some(options[i].clone());
        }
        assert(views.skip(i as int).skip(1) =~= views.skip(i + 1));
        i = i + 1;
    }
    None
}

/// The input device that the settings name.
pub fn selected_input_device(
    raw_name: &str,
    options: &[DeviceOption],
) -> (selected: Option<DeviceOption>)
    ensures
        optional_device(selected) == first_named(option_views(options@), raw_name@),
{
    find_selected_device(raw_name, options)
}

/// The output device that the settings name.
pub fn selected_output_device(
    raw_name: &str,
    options: &[DeviceOption],
) -> (selected: Option<DeviceOption>)
    ensures
        optional_device(selected) == first_named(option_views(options@), raw_name@),
{
    find_selected_device(raw_name, options)
}

/// Whether the settings leave the choice of a device to the system.
pub open spec fn means_default(configured: Seq<char>) -> bool {
    configured.len() == 0 || configured == DEFAULT_DEVICE_NAME@
}

/// The first position from `start` on at which a name stands.
pub open spec fn position_of(
    names: Seq<Option<Seq<char>>>,
    name: Seq<char>,
    start: int,
) -> Option<int>
    decreases names.len() - start,
{
    if start < 0 || start >= names.len() {
        None
    } else if names[start] == Some(name) {
        Some(start)
    } else {
        position_of(names, name, start + 1)
    }
}

/// Which of the devices the settings mean: the first one, where they leave it open, else
/// the first with the configured name.
pub open spec fn resolved_device(
    configured: Seq<char>,
    names: Seq<Option<Seq<char>>>,
) -> Option<int> {
    if means_default(configured) {
        if names.len() > 0 {
            Some(0int)
        } else {
            None
        }
    } else {
        position_of(names, configured, 0)
    }
}

/// A position, where there is one.
pub open spec fn optional_position(at: Option<usize>) -> Option<int> {
    match at {
        Some(i) => Some(i as int),
        None => None,
    }
}

/// Finds which of the devices the settings mean. A device without a name is never meant
/// by name.
pub fn resolve_input_device(configured: &str, names: &Vec<Option<String>>) -> (at: Option<usize>)
    ensures
        optional_position(at) == resolved_device(configured@, name_views(names@)),
{
    if configured.is_empty() || same_text(configured, DEFAULT_DEVICE_NAME) {
        return if names.len() > 0 {
            Some(0)
        } else {
            None
        };
    }
    let ghost views = name_views(names@);
    let mut i: usize = 0;
    while i < names.len()
        invariant
            i <= names@.len(),
            views == name_views(names@),
            !means_default(configured@),
            position_of(views, configured@, 0) == position_of(views, configured@, i as int),
        decreases names@.len() - i,
    {
        assert(views[i as int] == optional_text(names@[i as int]));
        if let Some(name) = &names[i] {
            if same_text(name.as_str(), configured) {
                return Some(i);
            }
        }
        i = i + 1;
    }
    None
}

// ---------------------------------------------------------------------------
// Laws
// ---------------------------------------------------------------------------

/// A device with a name has a label.
pub proof fn labels_are_not_empty(name: Seq<char>)
    requires
        name.len() > 0,
    ensures
        device_label(name).len() > 0,
{
}

/// Whether no two of the options have the same name.
pub open spec fn names_are_distinct(options: Seq<DeviceOptionView>) -> bool {
    forall|i: int, j: int|
        0 <= i < j < options.len() ==> (#[trigger] options[i]).raw_name != (
        #[trigger] options[j]).raw_name
}

/// Before sorting, every device that can be used has exactly one option, the one for its
/// name, and no other option is there.
proof fn lemma_found_options(names: Seq<Option<Seq<char>>>, default_name: Option<Seq<char>>)
    ensures
        names_are_distinct(found_options(names, default_name)),
        forall|i: int|
            0 <= i < found_options(names, default_name).len() ==> {
                let o = #[trigger] found_options(names, default_name)[i];
                o == option_for(o.raw_name, default_name) && names.contains(Some(o.raw_name))
            },
        forall|name: Seq<char>|
            names.contains(Some(name)) ==> #[trigger] has_name(
                found_options(names, default_name),
                name,
            ),
    decreases names.len(),
{
    let all = found_options(names, default_name);
    if names.len() > 0 {
        let shorter = names.drop_last();
        let before = found_options(shorter, default_name);
        lemma_found_options(shorter, default_name);
        assert forall|i: int| 0 <= i < all.len() implies {
            let o = #[trigger] all[i];
            o == option_for(o.raw_name, default_name) && names.contains(Some(o.raw_name))
        } by {
            if i < before.len() {
                assert(all[i] == before[i]);
                let k = choose|k: int|
                    0 <= k < shorter.len() && shorter[k] == Some(before[i].raw_name);
                assert(names[k] == Some(all[i].raw_name));
            } else {
                assert(names[names.len() - 1] == Some(all[i].raw_name));
            }
        }
        assert forall|name: Seq<char>| names.contains(Some(name)) implies #[trigger] has_name(
            all,
            name,
        ) by {
            let k = choose|k: int| 0 <= k < names.len() && names[k] == Some(name);
            if k < shorter.len() {
                assert(shorter[k] == Some(name));
                assert(shorter.contains(Some(name)));
                assert(has_name(before, name));
                let i = choose|i: int|
                    0 <= i < before.len() && (#[trigger] before[i]).raw_name == name;
                assert(all[i].raw_name == name);
            } else if has_name(before, name) {
                let i = choose|i: int|
                    0 <= i < before.len() && (#[trigger] before[i]).raw_name == name;
                assert(all[i].raw_name == name);
            } else {
                assert(all[all.len() - 1].raw_name == name);
            }
        }
    }
}

/// The options behind the default one.
pub open spec fn listed(
    names: Seq<Option<Seq<char>>>,
    default_name: Option<Seq<char>>,
) -> Seq<DeviceOptionView> {
    all_options(names, default_name).skip(1)
}

/// The default device always stands first, and naming it in the settings selects it.
pub proof fn default_option_comes_first(
    names: Seq<Option<Seq<char>>>,
    default_name: Option<Seq<char>>,
)
    ensures
        all_options(names, default_name)[0] == default_option(),
        first_named(all_options(names, default_name), DEFAULT_DEVICE_NAME@) == Some(
            default_option(),
        ),
{
}

/// The options behind the default one are in the order of their labels, case aside.
pub proof fn options_are_sorted(names: Seq<Option<Seq<char>>>, default_name: Option<Seq<char>>)
    ensures
        in_key_order(keys_of(listed(names, default_name), label_key()), false),
{
    sorted_by_key_is_ordered(found_options(names, default_name), label_key(), false);
    assert(listed(names, default_name) =~= sorted_by_key(
        found_options(names, default_name),
        label_key(),
        false,
    ));
}

/// A permutation of options without a repeated name has none either.
proof fn lemma_distinct_permutation(a: Seq<DeviceOptionView>, b: Seq<DeviceOptionView>)
    requires
        names_are_distinct(a),
        a.to_multiset() == b.to_multiset(),
    ensures
        names_are_distinct(b),
{
    broadcast use vstd::seq_lib::group_to_multiset_ensures;

    assert forall|i: int, j: int| 0 <= i < j < b.len() implies (#[trigger] b[i]).raw_name != (
    #[trigger] b[j]).raw_name by {
        if b[i].raw_name == b[j].raw_name {
            assert(b.contains(b[i]) && b.contains(b[j]));
            assert(b.to_multiset().count(b[i]) > 0 && b.to_multiset().count(b[j]) > 0);
            assert(a.contains(b[i]) && a.contains(b[j]));
            let x = choose|x: int| 0 <= x < a.len() && a[x] == b[i];
            let y = choose|y: int| 0 <= y < a.len() && a[y] == b[j];
            assert(a[x].raw_name == a[y].raw_name);
            assert(x == y);
            // The same option twice in `b`, but once in `a`.
            let v = b[i];
            assert(b[i] == b[j]);
            let c = b.remove(i);
            assert(c[j - 1] == v);
            assert(c.contains(v));
            assert(b =~= c.insert(i, v));
            assert(b.to_multiset() =~= c.to_multiset().insert(v));
            assert(b.to_multiset().count(v) >= 2);
            let d = a.remove(x);
            assert(a =~= d.insert(x, v));
            assert(a.to_multiset() =~= d.to_multiset().insert(v));
            assert(d.to_multiset().count(v) > 0);
            assert(d.contains(v));
            let z = choose|z: int| 0 <= z < d.len() && d[z] == v;
            let w = if z < x {
                z
            } else {
                z + 1
            };
            assert(a[w] == v);
            assert(a[w].raw_name == a[x].raw_name);
        }
    }
}

/// Every device that can be used is listed once, with the option for its name, and
/// nothing else is listed.
pub proof fn every_device_is_listed_once(
    names: Seq<Option<Seq<char>>>,
    default_name: Option<Seq<char>>,
)
    ensures
        names_are_distinct(listed(names, default_name)),
        forall|name: Seq<char>|
            names.contains(Some(name)) <==> #[trigger] listed(names, default_name).contains(
                option_for(name, default_name),
            ),
        forall|i: int|
            0 <= i < listed(names, default_name).len() ==> {
                let o = #[trigger] listed(names, default_name)[i];
                o == option_for(o.raw_name, default_name) && names.contains(Some(o.raw_name))
            },
{
    broadcast use vstd::seq_lib::group_to_multiset_ensures;

    let found = found_options(names, default_name);
    let sorted = listed(names, default_name);
    assert(sorted =~= sorted_by_key(found, label_key(), false));
    lemma_found_options(names, default_name);
    sorted_by_key_keeps_items(found, label_key(), false);
    lemma_distinct_permutation(found, sorted);
    assert forall|o: DeviceOptionView| found.contains(o) == sorted.contains(o) by {
        assert(found.contains(o) <==> found.to_multiset().count(o) > 0);
        assert(sorted.contains(o) <==> sorted.to_multiset().count(o) > 0);
    }
    assert forall|i: int| 0 <= i < sorted.len() implies {
        let o = #[trigger] sorted[i];
        o == option_for(o.raw_name, default_name) && names.contains(Some(o.raw_name))
    } by {
        let o = sorted[i];
        assert(sorted.contains(o));
        assert(found.contains(o));
        let k = choose|k: int| 0 <= k < found.len() && found[k] == o;
        assert(found[k] == option_for(found[k].raw_name, default_name));
    }
    assert forall|name: Seq<char>|
        names.contains(Some(name)) <==> #[trigger] sorted.contains(
            option_for(name, default_name),
        ) by {
        let o = option_for(name, default_name);
        if names.contains(Some(name)) {
            assert(has_name(found, name));
            let k = choose|k: int| 0 <= k < found.len() && (#[trigger] found[k]).raw_name == name;
            assert(found[k] == option_for(found[k].raw_name, default_name));
            assert(found[k] == o);
            assert(found.contains(o));
        }
        if sorted.contains(o) {
            let k = choose|k: int| 0 <= k < sorted.len() && sorted[k] == o;
            assert(names.contains(Some(sorted[k].raw_name)));
        }
    }
}

proof fn lemma_first_named(options: Seq<DeviceOptionView>, i: int)
    requires
        0 <= i < options.len(),
        names_are_distinct(options),
    ensures
        first_named(options, options[i].raw_name) == Some(options[i]),
    decreases options.len(),
{
    if i > 0 {
        let rest = options.skip(1);
        assert(options[0].raw_name != options[i].raw_name);
        assert forall|a: int, b: int| 0 <= a < b < rest.len() implies (#[trigger] rest[a]).raw_name
            != (#[trigger] rest[b]).raw_name by {
            assert(rest[a] == options[a + 1] && rest[b] == options[b + 1]);
        }
        lemma_first_named(rest, i - 1);
    }
}

/// Saving the name of a listed device selects that device again. A device that is itself
/// called like the default one is the exception.
pub proof fn a_saved_choice_is_found_again(
    names: Seq<Option<Seq<char>>>,
    default_name: Option<Seq<char>>,
    i: int,
)
    requires
        0 < i < all_options(names, default_name).len(),
        all_options(names, default_name)[i].raw_name != DEFAULT_DEVICE_NAME@,
    ensures
        first_named(
            all_options(names, default_name),
            all_options(names, default_name)[i].raw_name,
        ) == Some(all_options(names, default_name)[i]),
{
    let all = all_options(names, default_name);
    every_device_is_listed_once(names, default_name);
    lemma_first_named(listed(names, default_name), i - 1);
    assert(listed(names, default_name)[i - 1] == all[i]);
}

proof fn lemma_position_of(names: Seq<Option<Seq<char>>>, name: Seq<char>, start: int)
    requires
        0 <= start,
    ensures
        match position_of(names, name, start) {
            Some(at) => {
                &&& start <= at < names.len()
                &&& names[at] == Some(name)
                &&& forall|i: int| start <= i < at ==> #[trigger] names[i] != Some(name)
            },
            None => forall|i: int| start <= i < names.len() ==> #[trigger] names[i] != Some(name),
        },
    decreases names.len() - start,
{
    if start < names.len() && names[start] != Some(name) {
        lemma_position_of(names, name, start + 1);
    }
}

/// A device that is named in the settings is the one that is listened to, the first of
/// them where several have the name, and none where no device has it. Where the choice is
/// left to the system, it is the first device, and none only where there is no device.
pub proof fn the_configured_device_is_used(configured: Seq<char>, names: Seq<Option<Seq<char>>>)
    ensures
        !means_default(configured) ==> match resolved_device(configured, names) {
            Some(at) => {
                &&& 0 <= at < names.len()
                &&& names[at] == Some(configured)
                &&& forall|i: int| 0 <= i < at ==> #[trigger] names[i] != Some(configured)
            },
            None => forall|i: int| 0 <= i < names.len() ==> #[trigger] names[i] != Some(configured),
        },
        means_default(configured) && names.len() > 0 ==> resolved_device(configured, names)
            == Some(0int),
        names.len() == 0 ==> resolved_device(configured, names) is None,
{
    lemma_position_of(names, configured, 0);
}

/// The option of a device has the device's own name, and its label is the clean label,
/// marked exactly where the device's own name is that of the system's default device.
pub proof fn the_default_device_is_marked(
    names: Seq<Option<Seq<char>>>,
    default_name: Option<Seq<char>>,
    name: Seq<char>,
)
    requires
        names.contains(Some(name)),
    ensures
        default_name == Some(name) ==> listed(names, default_name).contains(
            DeviceOptionView {
                label: device_label(name) + " (system default)"@,
                raw_name: name,
            },
        ),
        default_name != Some(name) ==> listed(names, default_name).contains(
            DeviceOptionView { label: device_label(name), raw_name: name },
        ),
{
    every_device_is_listed_once(names, default_name);
    assert(listed(names, default_name).contains(option_for(name, default_name)));
}

/// No other option is marked: what is listed has a clean label, with the mark behind it
/// where it is the system's default device and without it where it is not.
pub proof fn only_the_default_device_is_marked(
    names: Seq<Option<Seq<char>>>,
    default_name: Option<Seq<char>>,
    i: int,
)
    requires
        0 <= i < listed(names, default_name).len(),
    ensures
        ({
            let option = listed(names, default_name)[i];
            &&& names.contains(Some(option.raw_name))
            &&& Some(option.raw_name) == default_name ==> option.label == device_label(
                option.raw_name,
            ) + " (system default)"@
            &&& Some(option.raw_name) != default_name ==> option.label == device_label(
                option.raw_name,
            )
        }),
{
    every_device_is_listed_once(names, default_name);
    assert(listed(names, default_name)[i] == option_for(
        listed(names, default_name)[i].raw_name,
        default_name,
    ));
}

/// The first option is called `Default` and stands for the default device. Behind it there
/// is one option for each name that a device has.
pub proof fn the_list_starts_with_the_default(
    names: Seq<Option<Seq<char>>>,
    default_name: Option<Seq<char>>,
)
    ensures
        ({
            let all = all_options(names, default_name);
            &&& all.len() >= 1
            &&& all[0].label == "Default"@
            &&& all[0].raw_name == "__default__"@
            &&& all =~= seq![all[0]] + listed(names, default_name)
            &&& forall|i: int, j: int|
                1 <= i < j < all.len() ==> (#[trigger] all[i]).raw_name != (
                #[trigger] all[j]).raw_name
        }),
{
    every_device_is_listed_once(names, default_name);
    let all = all_options(names, default_name);
    let rest = listed(names, default_name);
    assert forall|i: int, j: int| 1 <= i < j < all.len() implies (#[trigger] all[i]).raw_name != (
    #[trigger] all[j]).raw_name by {
        assert(all[i] == rest[i - 1] && all[j] == rest[j - 1]);
    }
}

/// Of two listed devices the one whose label in lower case comes first stands first.
pub proof fn labels_are_in_order(
    names: Seq<Option<Seq<char>>>,
    default_name: Option<Seq<char>>,
    i: int,
    j: int,
)
    requires
        0 <= i < j < listed(names, default_name).len(),
    ensures
        !text_before(
            lowercase(listed(names, default_name)[j].label),
            lowercase(listed(names, default_name)[i].label),
        ),
{
    options_are_sorted(names, default_name);
    let keys = keys_of(listed(names, default_name), label_key());
    assert(keys[i] == lowercase(listed(names, default_name)[i].label));
    assert(keys[j] == lowercase(listed(names, default_name)[j].label));
    assert(!key_before(keys[j], keys[i], false));
}

/// Devices whose labels differ in case at most are listed in the order in which they were
/// found.
pub proof fn equal_labels_stay_in_order(
    names: Seq<Option<Seq<char>>>,
    default_name: Option<Seq<char>>,
    key: Seq<char>,
)
    ensures
        with_key(listed(names, default_name), label_key(), key) == with_key(
            found_options(names, default_name),
            label_key(),
            key,
        ),
{
    sorted_by_key_is_stable(found_options(names, default_name), label_key(), false, key);
    assert(listed(names, default_name) =~= sorted_by_key(
        found_options(names, default_name),
        label_key(),
        false,
    ));
}

/// Devices are found in their order, each name where it comes first: a device whose name
/// was found before, or that has none, adds nothing.
pub proof fn devices_are_found_in_order(
    names: Seq<Option<Seq<char>>>,
    default_name: Option<Seq<char>>,
    name: Option<Seq<char>>,
)
    ensures
        ({
            let before = found_options(names, default_name);
            let after = found_options(names.push(name), default_name);
            if name is Some && !names.contains(name) {
                &&& after.len() == before.len() + 1
                &&& after.drop_last() == before
                &&& after.last().raw_name == name->0
            } else {
                after == before
            }
        }),
{
    let before = found_options(names, default_name);
    lemma_found_options(names, default_name);
    assert(names.push(name).drop_last() =~= names);
    if let Some(n) = name {
        if has_name(before, n) {
            let i = choose|i: int| 0 <= i < before.len() && (#[trigger] before[i]).raw_name == n;
            assert(names.contains(Some(before[i].raw_name)));
        } else {
            assert(!names.contains(Some(n)));
            assert(before.push(option_for(n, default_name)).drop_last() =~= before);
        }
    }
}

/// The option that a name selects is the first one with that name, and nothing is selected
/// only where no option has the name.
pub proof fn the_first_option_of_a_name_is_selected(
    options: Seq<DeviceOptionView>,
    raw_name: Seq<char>,
)
    ensures
        match first_named(options, raw_name) {
            Some(found) => exists|at: int|
                {
                    &&& 0 <= at < options.len()
                    &&& #[trigger] options[at] == found
                    &&& found.raw_name == raw_name
                    &&& forall|i: int| 0 <= i < at ==> (#[trigger] options[i]).raw_name != raw_name
                },
            None => forall|i: int|
                0 <= i < options.len() ==> (#[trigger] options[i]).raw_name != raw_name,
        },
    decreases options.len(),
{
    if options.len() > 0 && options[0].raw_name != raw_name {
        let rest = options.skip(1);
        the_first_option_of_a_name_is_selected(rest, raw_name);
        assert forall|i: int| 1 <= i < options.len() implies #[trigger] options[i] == rest[i - 1] by {}
        if let Some(found) = first_named(rest, raw_name) {
            let at = choose|at: int|
                {
                    &&& 0 <= at < rest.len()
                    &&& #[trigger] rest[at] == found
                    &&& found.raw_name == raw_name
                    &&& forall|i: int| 0 <= i < at ==> (#[trigger] rest[i]).raw_name != raw_name
                };
            assert(options[at + 1] == found);
            assert forall|i: int| 0 <= i < at + 1 implies (#[trigger] options[i]).raw_name
                != raw_name by {
                if i > 0 {
                    assert(options[i] == rest[i - 1]);
                }
            }
        }
    } else if options.len() > 0 {
        assert(options[0].raw_name == raw_name);
    }
}

/// The choice of a device is left to the system where none is named, or the default one.
pub proof fn the_choice_is_left_open(configured: Seq<char>)
    ensures
        means_default(configured) <==> configured.len() == 0 || configured == "__default__"@,
{
}

// ---------------------------------------------------------------------------
// Laws of labels
// ---------------------------------------------------------------------------

/// Whether a name shows no sound server in small letters and none behind it, and has no space
/// at its ends.
pub open spec fn is_bare_behind(name: Seq<char>) -> bool {
    &&& trimmed(name) == name
    &&& forall|k: int| !#[trigger] occurs_at(name, "pipewire"@, k)
    &&& forall|k: int| !#[trigger] occurs_at(name, "pulseaudio"@, k)
    &&& !finishes_with(name, " on PipeWire"@)
    &&& !finishes_with(name, " on PulseAudio"@)
    &&& !finishes_with(name, " (PipeWire)"@)
    &&& !finishes_with(name, " (PulseAudio)"@)
}

/// Whether a name besides has no driver before it.
pub open spec fn is_bare(name: Seq<char>) -> bool {
    &&& is_bare_behind(name)
    &&& !begins_with(name, "alsa_input."@)
    &&& !begins_with(name, "alsa_output."@)
}

/// Whether a name needs no cleaning: it is bare, has single spaces between its words and no
/// dash at its ends.
pub open spec fn is_plain(name: Seq<char>) -> bool {
    &&& name.len() > 0
    &&& is_bare(name)
    &&& single_spaced(name) == name
    &&& trim_ends(name, Some('-')) == name
}

proof fn lemma_spelled(name: Seq<char>)
    requires
        trimmed(name) == name,
        forall|k: int| !#[trigger] occurs_at(name, "pipewire"@, k),
        forall|k: int| !#[trigger] occurs_at(name, "pulseaudio"@, k),
    ensures
        spelled(name) == name,
{
    reveal_strlit("pipewire");
    reveal_strlit("pulseaudio");
    nothing_to_replace(name, "pipewire"@, "PipeWire"@);
    nothing_to_replace(name, "pulseaudio"@, "PulseAudio"@);
}

/// A name that needs no cleaning is its own label.
pub proof fn a_plain_name_is_its_label(name: Seq<char>)
    requires
        is_plain(name),
    ensures
        device_label(name) == name,
        cleaned(name) == name,
{
    lemma_spelled(name);
}

/// A label has no white space at its ends, and one space wherever the name has white space
/// between two words.
pub proof fn words_in_a_label_have_one_space_between(name: Seq<char>)
    requires
        is_bare(name),
        is_plain(single_spaced(name)),
    ensures
        device_label(name) == single_spaced(name),
{
    lemma_spelled(name);
}

/// White space around a name does not change its label.
pub proof fn space_around_a_name_is_dropped(
    before: Seq<char>,
    name: Seq<char>,
    after: Seq<char>,
)
    requires
        is_blank(before),
        is_blank(after),
        is_plain(name),
    ensures
        device_label(before + name + after) == name,
{
    trimming_forgets_what_is_around(before, name, after, None);
    a_plain_name_is_its_label(name);
}

/// Dashes around a name are not part of its label.
pub proof fn dashes_around_a_name_are_dropped(
    before: Seq<char>,
    name: Seq<char>,
    after: Seq<char>,
)
    requires
        forall|i: int| 0 <= i < before.len() ==> #[trigger] before[i] == '-',
        forall|i: int| 0 <= i < after.len() ==> #[trigger] after[i] == '-',
        is_plain(name),
        is_bare(before + name + after),
        single_spaced(before + name + after) == before + name + after,
    ensures
        device_label(before + name + after) == name,
{
    trimming_forgets_what_is_around(before, name, after, Some('-'));
    lemma_spelled(before + name + after);
}

/// A name of which nothing would be left is its own label: white space or dashes alone.
pub proof fn a_name_of_nothing_stays(name: Seq<char>)
    requires
        is_blank(name) || forall|i: int| 0 <= i < name.len() ==> #[trigger] name[i] == '-',
    ensures
        device_label(name) == name,
{
    let empty = Seq::<char>::empty();
    reveal_strlit("pipewire");
    reveal_strlit("pulseaudio");
    reveal_strlit(" on PipeWire");
    reveal_strlit(" on PulseAudio");
    reveal_strlit(" (PipeWire)");
    reveal_strlit(" (PulseAudio)");
    reveal_strlit("alsa_input.");
    reveal_strlit("alsa_output.");
    if is_blank(name) {
        crate::text::blank_texts_trim_to_nothing(name);
        assert(trimmed(name) =~= empty);
        assert(cleaned(name) == trimmed(trim_ends(single_spaced(empty), Some('-'))));
        crate::text::a_single_word_is_left_alone(empty);
    } else {
        let n = name.len() as int;
        assert(name[0] == '-' && name[n - 1] == '-');
        assert(trimmed(name) == name);
        lemma_word_is_absent(name, "pipewire"@);
        lemma_word_is_absent(name, "pulseaudio"@);
        lemma_spelled(name);
        lemma_other_ending(name, " on PipeWire"@, 1);
        lemma_other_ending(name, " on PulseAudio"@, 1);
        lemma_other_ending(name, " (PipeWire)"@, 1);
        lemma_other_ending(name, " (PulseAudio)"@, 1);
        lemma_other_beginning(name, "alsa_input."@, 0);
        lemma_other_beginning(name, "alsa_output."@, 0);
        assert forall|i: int| 0 <= i < n implies !crate::text::is_space(#[trigger] name[i]) by {
            assert(name[i] == '-');
        }
        crate::text::a_single_word_is_left_alone(name);
        trimming_forgets_what_is_around(name, empty, empty, Some('-'));
        assert(name + empty + empty =~= name);
        assert(cleaned(name) =~= empty);
    }
}

proof fn lemma_other_ending(name: Seq<char>, suffix: Seq<char>, back: int)
    requires
        0 < back <= suffix.len(),
        back <= name.len() ==> name[name.len() - back] != suffix[suffix.len() - back],
    ensures
        !finishes_with(name, suffix),
{
    if finishes_with(name, suffix) {
        let cut = name.len() - suffix.len();
        assert(name.skip(cut)[suffix.len() - back] == name[name.len() - back]);
    }
}

proof fn lemma_other_beginning(name: Seq<char>, prefix: Seq<char>, at: int)
    requires
        0 <= at < prefix.len(),
        at < name.len() ==> name[at] != prefix[at],
    ensures
        !begins_with(name, prefix),
{
    if begins_with(name, prefix) {
        assert(name.take(prefix.len() as int)[at] == name[at]);
    }
}

/// A text in which the first letter of a word is never followed by the second does not hold
/// the word.
proof fn lemma_word_is_absent(s: Seq<char>, word: Seq<char>)
    requires
        word.len() > 1,
        forall|i: int|
            0 <= i < s.len() - 1 ==> #[trigger] s[i] != word[0] || s[i + 1] != word[1],
    ensures
        forall|k: int| !#[trigger] occurs_at(s, word, k),
{
    assert forall|k: int| !#[trigger] occurs_at(s, word, k) by {
        if occurs_at(s, word, k) {
            assert(s.subrange(k, k + word.len())[0] == s[k]);
            assert(s.subrange(k, k + word.len())[1] == s[k + 1]);
        }
    }
}

/// No occurrence of a word reaches into an ending that starts with a character which the
/// word has not, where the ending does not hold the word.
proof fn lemma_no_occurrence(name: Seq<char>, ending: Seq<char>, word: Seq<char>)
    requires
        forall|k: int| !#[trigger] occurs_at(name, word, k),
        forall|k: int| !#[trigger] occurs_at(ending, word, k),
        ending.len() > 0,
        word.len() > 0,
        forall|i: int| 0 <= i < word.len() ==> #[trigger] word[i] != ending[0],
    ensures
        forall|k: int| !#[trigger] occurs_at(name + ending, word, k),
{
    let all = name + ending;
    let n = name.len() as int;
    assert forall|k: int| !#[trigger] occurs_at(all, word, k) by {
        if occurs_at(all, word, k) {
            let piece = all.subrange(k, k + word.len());
            if k + word.len() <= n {
                assert(name.subrange(k, k + word.len()) =~= piece);
                assert(occurs_at(name, word, k));
            } else if k > n {
                assert(ending.subrange(k - n, k - n + word.len()) =~= piece);
                assert(occurs_at(ending, word, k - n));
            } else {
                assert(piece[n - k] == ending[0]);
                assert(word[n - k] == ending[0]);
            }
        }
    }
}

/// Putting an ending that names a sound server behind a plain name makes a name that is only
/// missing that ending's removal.
proof fn lemma_with_ending(name: Seq<char>, ending: Seq<char>)
    requires
        is_plain(name),
        ending.len() > 1,
        ending[0] == ' ',
        !crate::text::is_space(ending.last()),
        forall|k: int| !#[trigger] occurs_at(ending, "pipewire"@, k),
        forall|k: int| !#[trigger] occurs_at(ending, "pulseaudio"@, k),
    ensures
        spelled(name + ending) == name + ending,
{
    reveal_strlit("pipewire");
    reveal_strlit("pulseaudio");
    let all = name + ending;
    let (a, b) = trimming_takes_the_ends_only(name, None);
    assert(a == 0 && b == name.len());
    assert(!crate::text::is_space(name[0]));
    assert(all.first() == name[0]);
    assert(all.last() == ending.last());
    lemma_no_occurrence(name, ending, "pipewire"@);
    lemma_no_occurrence(name, ending, "pulseaudio"@);
    lemma_spelled(all);
}

/// The sound server behind a name is not part of its label, however it is put there.
pub proof fn the_sound_server_is_dropped(name: Seq<char>)
    requires
        is_plain(name),
    ensures
        device_label(name + " on PipeWire"@) == name,
        device_label(name + " on PulseAudio"@) == name,
        device_label(name + " (PipeWire)"@) == name,
        device_label(name + " (PulseAudio)"@) == name,
{
    reveal_strlit("pipewire");
    reveal_strlit("pulseaudio");
    reveal_strlit(" on PipeWire");
    reveal_strlit(" on PulseAudio");
    reveal_strlit(" (PipeWire)");
    reveal_strlit(" (PulseAudio)");
    let a = " on PipeWire"@;
    let b = " on PulseAudio"@;
    let c = " (PipeWire)"@;
    let d = " (PulseAudio)"@;
    lemma_word_is_absent(a, "pipewire"@);
    lemma_word_is_absent(a, "pulseaudio"@);
    lemma_word_is_absent(b, "pipewire"@);
    lemma_word_is_absent(b, "pulseaudio"@);
    lemma_word_is_absent(c, "pipewire"@);
    lemma_word_is_absent(c, "pulseaudio"@);
    lemma_word_is_absent(d, "pipewire"@);
    lemma_word_is_absent(d, "pulseaudio"@);
    lemma_with_ending(name, a);
    lemma_with_ending(name, b);
    lemma_with_ending(name, c);
    lemma_with_ending(name, d);
    a_suffix_is_taken_off_once(name, a);
    a_suffix_is_taken_off_once(name, b);
    a_suffix_is_taken_off_once(name, c);
    a_suffix_is_taken_off_once(name, d);
    lemma_other_ending(name + b, a, 1);
    lemma_other_ending(name + c, a, 1);
    lemma_other_ending(name + c, b, 1);
    lemma_other_ending(name + d, a, 1);
    lemma_other_ending(name + d, b, 1);
    lemma_other_ending(name + d, c, 2);
    assert(without_server(name + a) == name);
    assert(without_server(name + b) == name);
    assert(without_server(name + c) == name);
    assert(without_server(name + d) == name);
}

/// Two sound servers behind a name are both dropped, where the one that is dropped first
/// stands last.
#[verifier::rlimit(60)]
pub proof fn two_sound_servers_are_dropped(name: Seq<char>)
    requires
        is_plain(name),
    ensures
        device_label(name + (" on PulseAudio"@ + " on PipeWire"@)) == name,
        device_label(name + (" (PipeWire)"@ + " on PipeWire"@)) == name,
        device_label(name + (" (PulseAudio)"@ + " on PipeWire"@)) == name,
        device_label(name + (" (PipeWire)"@ + " on PulseAudio"@)) == name,
        device_label(name + (" (PulseAudio)"@ + " on PulseAudio"@)) == name,
        device_label(name + (" (PulseAudio)"@ + " (PipeWire)"@)) == name,
{
    reveal_strlit("pipewire");
    reveal_strlit("pulseaudio");
    reveal_strlit(" on PipeWire");
    reveal_strlit(" on PulseAudio");
    reveal_strlit(" (PipeWire)");
    reveal_strlit(" (PulseAudio)");
    let a = " on PipeWire"@;
    let b = " on PulseAudio"@;
    let c = " (PipeWire)"@;
    let d = " (PulseAudio)"@;
    assert(device_label(name + (b + a)) == name) by {
        let e = b + a;
        lemma_word_is_absent(e, "pipewire"@);
        lemma_word_is_absent(e, "pulseaudio"@);
        lemma_with_ending(name, e);
        assert(name + e =~= (name + b) + a);
        a_suffix_is_taken_off_once(name + b, a);
        a_suffix_is_taken_off_once(name, b);
        assert(without_server(name + e) == name);
    }
    assert(device_label(name + (c + a)) == name) by {
        let e = c + a;
        lemma_word_is_absent(e, "pipewire"@);
        lemma_word_is_absent(e, "pulseaudio"@);
        lemma_with_ending(name, e);
        assert(name + e =~= (name + c) + a);
        a_suffix_is_taken_off_once(name + c, a);
        a_suffix_is_taken_off_once(name, c);
        lemma_other_ending(name + c, b, 1);
        assert(without_server(name + e) == name);
    }
    assert(device_label(name + (d + a)) == name) by {
        let e = d + a;
        lemma_word_is_absent(e, "pipewire"@);
        lemma_word_is_absent(e, "pulseaudio"@);
        lemma_with_ending(name, e);
        assert(name + e =~= (name + d) + a);
        a_suffix_is_taken_off_once(name + d, a);
        a_suffix_is_taken_off_once(name, d);
        lemma_other_ending(name + d, b, 1);
        lemma_other_ending(name + d, c, 2);
        assert(without_server(name + e) == name);
    }
    assert(device_label(name + (c + b)) == name) by {
        let e = c + b;
        lemma_word_is_absent(e, "pipewire"@);
        lemma_word_is_absent(e, "pulseaudio"@);
        lemma_with_ending(name, e);
        assert(name + e =~= (name + c) + b);
        a_suffix_is_taken_off_once(name + c, b);
        a_suffix_is_taken_off_once(name, c);
        lemma_other_ending(name + e, a, 1);
        assert(without_server(name + e) == name);
    }
    assert(device_label(name + (d + b)) == name) by {
        let e = d + b;
        lemma_word_is_absent(e, "pipewire"@);
        lemma_word_is_absent(e, "pulseaudio"@);
        lemma_with_ending(name, e);
        assert(name + e =~= (name + d) + b);
        a_suffix_is_taken_off_once(name + d, b);
        a_suffix_is_taken_off_once(name, d);
        lemma_other_ending(name + e, a, 1);
        lemma_other_ending(name + d, c, 2);
        assert(without_server(name + e) == name);
    }
    assert(device_label(name + (d + c)) == name) by {
        let e = d + c;
        lemma_word_is_absent(e, "pipewire"@);
        lemma_word_is_absent(e, "pulseaudio"@);
        lemma_with_ending(name, e);
        assert(name + e =~= (name + d) + c);
        a_suffix_is_taken_off_once(name + d, c);
        a_suffix_is_taken_off_once(name, d);
        lemma_other_ending(name + e, a, 1);
        lemma_other_ending(name + e, b, 1);
        assert(without_server(name + e) == name);
    }
}

/// A sound server in small letters is spelled as it is usually: the label is that of the name
/// with the usual spelling.
pub proof fn sound_servers_are_spelled(before: Seq<char>, after: Seq<char>)
    ensures
        ({
            let small = before + "pipewire"@ + after;
            let usual = before + "PipeWire"@ + after;
            trimmed(small) == small && trimmed(usual) == usual && (forall|k: int|
                k != before.len() ==> !#[trigger] occurs_at(small, "pipewire"@, k)) && (forall|
                k: int,
            | !#[trigger] occurs_at(usual, "pipewire"@, k)) ==> cleaned(small) == cleaned(usual)
        }),
        ({
            let small = before + "pulseaudio"@ + after;
            let usual = before + "PulseAudio"@ + after;
            trimmed(small) == small && trimmed(usual) == usual && (forall|k: int|
                k != before.len() ==> !#[trigger] occurs_at(small, "pulseaudio"@, k)) && (forall|
                k: int,
            | !#[trigger] occurs_at(usual, "pulseaudio"@, k)) && (forall|k: int|
                !#[trigger] occurs_at(small, "pipewire"@, k)) && (forall|k: int|
                !#[trigger] occurs_at(usual, "pipewire"@, k)) ==> cleaned(small) == cleaned(usual)
        }),
{
    reveal_strlit("pipewire");
    reveal_strlit("pulseaudio");
    lemma_one_replaced(before, "pipewire"@, "PipeWire"@, after);
    lemma_one_replaced(before, "pulseaudio"@, "PulseAudio"@, after);
    let small = before + "pulseaudio"@ + after;
    let usual = before + "PulseAudio"@ + after;
    if forall|k: int| !#[trigger] occurs_at(small, "pipewire"@, k) {
        nothing_to_replace(small, "pipewire"@, "PipeWire"@);
    }
    if forall|k: int| !#[trigger] occurs_at(usual, "pipewire"@, k) {
        nothing_to_replace(usual, "pipewire"@, "PipeWire"@);
    }
}

proof fn lemma_one_replaced(before: Seq<char>, from: Seq<char>, to: Seq<char>, after: Seq<char>)
    requires
        from.len() > 0,
    ensures
        (forall|k: int| k != before.len() ==> !#[trigger] occurs_at(before + from + after, from, k))
            && (forall|k: int| !#[trigger] occurs_at(before + to + after, from, k)) ==> replaced(
            before + from + after,
            from,
            to,
        ) == before + to + after && replaced(before + to + after, from, to) == before + to + after,
{
    let s = before + from + after;
    let n = before.len() as int;
    if (forall|k: int| k != n ==> !#[trigger] occurs_at(s, from, k)) && (forall|k: int|
        !#[trigger] occurs_at(before + to + after, from, k)) {
        assert(s.subrange(n, n + from.len()) =~= from);
        the_first_occurrence_is_replaced(s, from, to, n);
        assert(s.take(n) =~= before);
        assert(s.skip(n + from.len()) =~= after);
        assert forall|k: int| !#[trigger] occurs_at(after, from, k) by {
            if occurs_at(after, from, k) {
                let at = n + from.len() + k;
                assert(s.subrange(at, at + from.len()) =~= after.subrange(k, k + from.len()));
                assert(occurs_at(s, from, at));
            }
        }
        nothing_to_replace(after, from, to);
        nothing_to_replace(before + to + after, from, to);
    }
}

/// The driver in front of a name is not part of its label, and the dots behind it are spaces.
pub proof fn the_driver_is_dropped(name: Seq<char>)
    requires
        is_plain(replaced(name, seq!['.'], seq![' '])),
    ensures
        ({
            let full = "alsa_input."@ + name;
            is_bare_behind(full) ==> device_label(full) == replaced(name, seq!['.'], seq![' '])
        }),
        ({
            let full = "alsa_output."@ + name;
            is_bare_behind(full) ==> device_label(full) == replaced(name, seq!['.'], seq![' '])
        }),
{
    reveal_strlit("alsa_input.");
    reveal_strlit("alsa_output.");
    let y = replaced(name, seq!['.'], seq![' ']);
    let i = "alsa_input."@;
    let o = "alsa_output."@;
    assert((i + name).take(i.len() as int) =~= i);
    assert((i + name).skip(i.len() as int) =~= name);
    assert((o + name).take(o.len() as int) =~= o);
    assert((o + name).skip(o.len() as int) =~= name);
    lemma_other_beginning(o + name, i, 5);
    if is_bare_behind(i + name) {
        lemma_spelled(i + name);
    }
    if is_bare_behind(o + name) {
        lemma_spelled(o + name);
    }
}

/// Lists of options and of names are seen one by one, in order, and what stands for an
/// option or a position that may be missing holds what they hold.
pub proof fn options_are_seen_one_by_one(
    options: Seq<DeviceOption>,
    names: Seq<Option<String>>,
    option: DeviceOption,
    at: usize,
)
    ensures
        option_views(options).len() == options.len(),
        forall|i: int|
            0 <= i < options.len() ==> (#[trigger] option_views(options)[i]).label
                == options[i].label@ && option_views(options)[i].raw_name == options[i].raw_name@,
        name_views(names).len() == names.len(),
        forall|i: int|
            0 <= i < names.len() ==> #[trigger] name_views(names)[i] == optional_text(names[i]),
        optional_device(Some(option)) == Some(option@),
        optional_device(None) is None,
        optional_position(Some(at)) == Some(at as int),
        optional_position(None) is None,
{
}

} // verus!
