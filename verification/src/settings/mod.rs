use vstd::prelude::*;
use vstd::string::*;

verus! {

/// A JSON value as the settings code reads it: numbers are kept only when they
/// are non-negative integers within `u64`.
#[derive(Debug, Clone, PartialEq)]
pub enum JsonValue {
    Null,
    Bool(bool),
    UInt(u64),
    OtherNumber,
    Text(String),
    Compound,
}

/// What a `JsonValue` denotes.
pub enum JsonView {
    Null,
    Bool(bool),
    UInt(u64),
    OtherNumber,
    Text(Seq<char>),
    Compound,
}

impl View for JsonValue {
    type V = JsonView;

    open spec fn view(&self) -> JsonView {
        match self {
            JsonValue::Null => JsonView::Null,
            JsonValue::Bool(b) => JsonView::Bool(*b),
            JsonValue::UInt(n) => JsonView::UInt(*n),
            JsonValue::OtherNumber => JsonView::OtherNumber,
            JsonValue::Text(s) => JsonView::Text(s@),
            JsonValue::Compound => JsonView::Compound,
        }
    }
}

/// The value `serde_json` parses from `text` (as a `serde_json::Value`, then read as
/// a `JsonValue`), `None` when the text is not JSON.
pub uninterp spec fn spec_parse_json(text: Seq<char>) -> Option<JsonView>;

/// The JSON text that `serde_json::to_string` writes for a scalar value.
pub uninterp spec fn spec_json_text(value: JsonView) -> Seq<char>;

/// Calls `serde_json::from_str::<serde_json::Value>` and reads the result as a
/// `JsonValue` (`Number::as_u64` decides `UInt`; arrays and objects are `Compound`).
#[verifier::external_body]
fn parse_json(text: &str) -> (r: Option<JsonValue>)
    ensures
        r is Some <==> spec_parse_json(text@) is Some,
        r matches Some(v) ==> spec_parse_json(text@) == Some(v@),
{
    match serde_json::from_str::<serde_json::Value>(text) {
        Ok(serde_json::Value::Null) => Some(JsonValue::Null),
        Ok(serde_json::Value::Bool(b)) => Some(JsonValue::Bool(b)),
        Ok(serde_json::Value::Number(n)) => Some(n.as_u64().map_or(JsonValue::OtherNumber, JsonValue::UInt)),
        Ok(serde_json::Value::String(s)) => Some(JsonValue::Text(s)),
        Ok(_) => Some(JsonValue::Compound),
        Err(_) => None,
    }
}

/// A JSON scalar that a setting is saved as.
#[derive(Debug, Clone, PartialEq)]
pub enum JsonScalar {
    Null,
    Bool(bool),
    UInt(u64),
    Text(String),
}

/// What a `JsonScalar` denotes.
pub open spec fn scalar_view(v: JsonScalar) -> JsonView {
    match v {
        JsonScalar::Null => JsonView::Null,
        JsonScalar::Bool(b) => JsonView::Bool(b),
        JsonScalar::UInt(n) => JsonView::UInt(n),
        JsonScalar::Text(s) => JsonView::Text(s@),
    }
}

/// Calls `serde_json::to_string` on the `serde_json::Value` of a scalar; serialising
/// such a `Value` does not fail. serde_json escapes every quote, backslash and control
/// character of a string and writes an integer in decimal, so parsing the text back
/// gives the same scalar.
#[verifier::external_body]
fn json_text(value: &JsonScalar) -> (r: String)
    ensures
        r@ == spec_json_text(scalar_view(*value)),
        spec_parse_json(r@) == Some(scalar_view(*value)),
{
    let v = match value {
        JsonScalar::Null => serde_json::Value::Null,
        JsonScalar::Bool(b) => serde_json::Value::Bool(*b),
        JsonScalar::UInt(n) => serde_json::Value::from(*n),
        JsonScalar::Text(s) => serde_json::Value::String(s.clone()),
    };
    serde_json::to_string(&v).unwrap_or_default()
}

/// Application settings.
#[derive(Debug, Clone, PartialEq)]
pub struct AppSettings {
    pub output_mode: String,
    pub output_dir: Option<String>,
    pub default_quality: u8,
    pub default_format: String,
    pub duplicate_hash_distance: u32,
    pub date_group_granularity: String,
    pub thumbnail_size_px: u32,
    pub scan_recursive: bool,
    /// Max threads for image processing jobs. 0 = auto (number of CPUs - 1).
    pub processing_threads: u32,
}

/// Textual fields of settings, as sequences of characters.
pub open spec fn opt_text(o: Option<String>) -> Option<Seq<char>> {
    match o {
        Some(s) => Some(s@),
        None => None,
    }
}

/// The default settings.
pub open spec fn is_default_settings(s: AppSettings) -> bool {
    &&& s.output_mode@ == "output_folder"@
    &&& s.output_dir is None
    &&& s.default_quality == 85
    &&& s.default_format@ == "jpeg"@
    &&& s.duplicate_hash_distance == 8
    &&& s.date_group_granularity@ == "day"@
    &&& s.thumbnail_size_px == 256
    &&& s.scan_recursive
    &&& s.processing_threads == 0
}

impl Default for AppSettings {
    fn default() -> (s: Self)
        ensures
            is_default_settings(s),
    {
        AppSettings {
            output_mode: String::from_str("output_folder"),
            output_dir: None,
            default_quality: 85,
            default_format: String::from_str("jpeg"),
            duplicate_hash_distance: 8,
            date_group_granularity: String::from_str("day"),
            thumbnail_size_px: 256,
            scan_recursive: true,
            processing_threads: 0,
        }
    }
}

/// The stored JSON text of each setting, `None` where the store has no entry.
#[derive(Debug, Clone, PartialEq)]
pub struct StoredSettings {
    pub output_mode: Option<String>,
    pub output_dir: Option<String>,
    pub default_quality: Option<String>,
    pub default_format: Option<String>,
    pub duplicate_hash_distance: Option<String>,
    pub date_group_granularity: Option<String>,
    pub thumbnail_size_px: Option<String>,
    pub scan_recursive: Option<String>,
    pub processing_threads: Option<String>,
}

/// The parsed value of a stored entry.
pub open spec fn stored_value(entry: Option<String>) -> Option<JsonView> {
    match entry {
        Some(t) => spec_parse_json(t@),
        None => None,
    }
}

/// A stored entry that holds a JSON string.
pub open spec fn stored_text(entry: Option<String>) -> Option<Seq<char>> {
    match stored_value(entry) {
        Some(JsonView::Text(s)) => Some(s),
        _ => None,
    }
}

/// A stored entry that holds a JSON string or `null`; anything else reads as `None`.
pub open spec fn stored_optional_text(entry: Option<String>) -> Option<Seq<char>> {
    match stored_value(entry) {
        Some(JsonView::Text(s)) => Some(s),
        _ => None,
    }
}

/// A stored entry that holds an integer within `0..=max`.
pub open spec fn stored_uint(entry: Option<String>, max: u64) -> Option<u64> {
    match stored_value(entry) {
        Some(JsonView::UInt(n)) => if n <= max {
            Some(n)
        } else {
            None
        },
        _ => None,
    }
}

/// A stored entry that holds a JSON boolean.
pub open spec fn stored_bool(entry: Option<String>) -> Option<bool> {
    match stored_value(entry) {
        Some(JsonView::Bool(b)) => Some(b),
        _ => None,
    }
}

/// `s` is what loading `stored` gives: each entry that parses as a value of the
/// field's type is taken, every other field keeps its default.
pub open spec fn loaded_from(stored: StoredSettings, s: AppSettings) -> bool {
    &&& s.output_mode@ == stored_text(stored.output_mode).unwrap_or("output_folder"@)
    &&& opt_text(s.output_dir) == stored_optional_text(stored.output_dir)
    &&& s.default_quality as u64 == stored_uint(stored.default_quality, 255).unwrap_or(85)
    &&& s.default_format@ == stored_text(stored.default_format).unwrap_or("jpeg"@)
    &&& s.duplicate_hash_distance as u64 == stored_uint(stored.duplicate_hash_distance, 0xffff_ffff).unwrap_or(8)
    &&& s.date_group_granularity@ == stored_text(stored.date_group_granularity).unwrap_or("day"@)
    &&& s.thumbnail_size_px as u64 == stored_uint(stored.thumbnail_size_px, 0xffff_ffff).unwrap_or(256)
    &&& s.scan_recursive == stored_bool(stored.scan_recursive).unwrap_or(true)
    &&& s.processing_threads as u64 == stored_uint(stored.processing_threads, 0xffff_ffff).unwrap_or(0)
}

fn read_value(entry: &Option<String>) -> (r: Option<JsonValue>)
    ensures
        r is Some <==> stored_value(*entry) is Some,
        r matches Some(v) ==> stored_value(*entry) == Some(v@),
{
    match entry {
        Some(t) => parse_json(t.as_str()),
        None => None,
    }
}

fn read_text(entry: &Option<String>, default: &str) -> (r: String)
    ensures
        r@ == stored_text(*entry).unwrap_or(default@),
{
    match read_value(entry) {
        Some(JsonValue::Text(s)) => s,
        _ => String::from_str(default),
    }
}

fn read_uint(entry: &Option<String>, max: u64, default: u64) -> (r: u64)
    ensures
        r == stored_uint(*entry, max).unwrap_or(default),
{
    match read_value(entry) {
        Some(JsonValue::UInt(n)) => if n <= max {
            n
        } else {
            default
        },
        _ => default,
    }
}

/// The settings that the stored entries give.
pub fn settings_from_stored(stored: &StoredSettings) -> (s: AppSettings)
    ensures
        loaded_from(*stored, s),
{
    let output_dir = match read_value(&stored.output_dir) {
        Some(JsonValue::Text(d)) => Some(d),
        _ => None,
    };
    let scan_recursive = match read_value(&stored.scan_recursive) {
        Some(JsonValue::Bool(b)) => b,
        _ => true,
    };
    AppSettings {
        output_mode: read_text(&stored.output_mode, "output_folder"),
        output_dir,
        default_quality: read_uint(&stored.default_quality, 255, 85) as u8,
        default_format: read_text(&stored.default_format, "jpeg"),
        duplicate_hash_distance: read_uint(&stored.duplicate_hash_distance, 0xffff_ffff, 8) as u32,
        date_group_granularity: read_text(&stored.date_group_granularity, "day"),
        thumbnail_size_px: read_uint(&stored.thumbnail_size_px, 0xffff_ffff, 256) as u32,
        scan_recursive,
        processing_threads: read_uint(&stored.processing_threads, 0xffff_ffff, 0) as u32,
    }
}

/// Loading from a store with no entries gives the default settings.
pub proof fn lemma_empty_store_loads_defaults(s: AppSettings)
    requires
        loaded_from(
            StoredSettings {
                output_mode: None,
                output_dir: None,
                default_quality: None,
                default_format: None,
                duplicate_hash_distance: None,
                date_group_granularity: None,
                thumbnail_size_px: None,
                scan_recursive: None,
                processing_threads: None,
            },
            s,
        ),
    ensures
        is_default_settings(s),
{
}

/// Number of stored settings.
pub const SETTING_COUNT: usize = 9;

/// Store key of the `k`-th setting.
pub open spec fn setting_key(k: int) -> Seq<char> {
    if k == 0 {
        "output_mode"@
    } else if k == 1 {
        "output_dir"@
    } else if k == 2 {
        "default_quality"@
    } else if k == 3 {
        "default_format"@
    } else if k == 4 {
        "duplicate_hash_distance"@
    } else if k == 5 {
        "date_group_granularity"@
    } else if k == 6 {
        "thumbnail_size_px"@
    } else if k == 7 {
        "scan_recursive"@
    } else {
        "processing_threads"@
    }
}

/// JSON value stored for the `k`-th setting.
pub open spec fn setting_value(s: AppSettings, k: int) -> JsonView {
    if k == 0 {
        JsonView::Text(s.output_mode@)
    } else if k == 1 {
        match s.output_dir {
            Some(d) => JsonView::Text(d@),
            None => JsonView::Null,
        }
    } else if k == 2 {
        JsonView::UInt(s.default_quality as u64)
    } else if k == 3 {
        JsonView::Text(s.default_format@)
    } else if k == 4 {
        JsonView::UInt(s.duplicate_hash_distance as u64)
    } else if k == 5 {
        JsonView::Text(s.date_group_granularity@)
    } else if k == 6 {
        JsonView::UInt(s.thumbnail_size_px as u64)
    } else if k == 7 {
        JsonView::Bool(s.scan_recursive)
    } else {
        JsonView::UInt(s.processing_threads as u64)
    }
}

/// One entry to store: key and JSON text.
#[derive(Debug, Clone, PartialEq)]
pub struct SettingEntry {
    pub key: String,
    pub value_json: String,
}

fn setting_entry(s: &AppSettings, k: usize) -> (e: SettingEntry)
    requires
        k < SETTING_COUNT,
    ensures
        e.key@ == setting_key(k as int),
        e.value_json@ == spec_json_text(setting_value(*s, k as int)),
        spec_parse_json(e.value_json@) == Some(setting_value(*s, k as int)),
{
    let (key, value) = if k == 0 {
        (String::from_str("output_mode"), JsonScalar::Text(s.output_mode.clone()))
    } else if k == 1 {
        (
            String::from_str("output_dir"),
            match &s.output_dir {
                Some(d) => JsonScalar::Text(d.clone()),
                None => JsonScalar::Null,
            },
        )
    } else if k == 2 {
        (String::from_str("default_quality"), JsonScalar::UInt(s.default_quality as u64))
    } else if k == 3 {
        (String::from_str("default_format"), JsonScalar::Text(s.default_format.clone()))
    } else if k == 4 {
        (String::from_str("duplicate_hash_distance"), JsonScalar::UInt(s.duplicate_hash_distance as u64))
    } else if k == 5 {
        (String::from_str("date_group_granularity"), JsonScalar::Text(s.date_group_granularity.clone()))
    } else if k == 6 {
        (String::from_str("thumbnail_size_px"), JsonScalar::UInt(s.thumbnail_size_px as u64))
    } else if k == 7 {
        (String::from_str("scan_recursive"), JsonScalar::Bool(s.scan_recursive))
    } else {
        (String::from_str("processing_threads"), JsonScalar::UInt(s.processing_threads as u64))
    };
    SettingEntry { key, value_json: json_text(&value) }
}

/// The entries that saving `s` writes, in order: each setting's key with its
/// value as JSON, a text that parses back to that value.
pub fn settings_entries(s: &AppSettings) -> (entries: Vec<SettingEntry>)
    ensures
        entries@.len() == SETTING_COUNT,
        forall|k: int| 0 <= k < SETTING_COUNT ==> (#[trigger] entries@[k]).key@ == setting_key(k),
        forall|k: int| 0 <= k < SETTING_COUNT ==> (#[trigger] entries@[k]).value_json@ == spec_json_text(
            setting_value(*s, k),
        ),
        forall|k: int|
            0 <= k < SETTING_COUNT ==> spec_parse_json((#[trigger] entries@[k]).value_json@) == Some(
                setting_value(*s, k),
            ),
{
    let mut entries: Vec<SettingEntry> = Vec::new();
    let mut k: usize = 0;
    while k < SETTING_COUNT
        invariant
            k <= SETTING_COUNT,
            entries@.len() == k,
            forall|q: int| 0 <= q < k ==> (#[trigger] entries@[q]).key@ == setting_key(q),
            forall|q: int| 0 <= q < k ==> (#[trigger] entries@[q]).value_json@ == spec_json_text(
                setting_value(*s, q),
            ),
            forall|q: int|
                0 <= q < k ==> spec_parse_json((#[trigger] entries@[q]).value_json@) == Some(
                    setting_value(*s, q),
                ),
        decreases SETTING_COUNT - k,
    {
        entries.push(setting_entry(s, k));
        k = k + 1;
    }
    entries
}

/// Changes requested for settings: each field holds the request's JSON value for
/// that setting, `None` where the request does not mention it.
#[derive(Debug, Clone, PartialEq)]
pub struct SettingsPatch {
    pub output_mode: Option<JsonValue>,
    pub output_dir: Option<JsonValue>,
    pub default_quality: Option<JsonValue>,
    pub default_format: Option<JsonValue>,
    pub duplicate_hash_distance: Option<JsonValue>,
    pub date_group_granularity: Option<JsonValue>,
    pub thumbnail_size_px: Option<JsonValue>,
    pub scan_recursive: Option<JsonValue>,
    pub processing_threads: Option<JsonValue>,
}

/// The string a patch field gives, if it is a JSON string.
pub open spec fn patch_text(v: Option<JsonValue>) -> Option<Seq<char>> {
    match v {
        Some(JsonValue::Text(t)) => Some(t@),
        _ => None,
    }
}

/// The integer a patch field gives, if it is a non-negative JSON integer.
pub open spec fn patch_uint(v: Option<JsonValue>) -> Option<u64> {
    match v {
        Some(JsonValue::UInt(n)) => Some(n),
        _ => None,
    }
}

/// `new` is `current` with the patch applied: string fields take a given string,
/// the output folder takes the given value when mentioned (a non-string clears it),
/// quality takes a given integer capped at 100, the other integers take a given
/// integer cut to 32 bits, and the recursion flag takes a given boolean.
pub open spec fn patched(current: AppSettings, patch: SettingsPatch, new: AppSettings) -> bool {
    &&& new.output_mode@ == patch_text(patch.output_mode).unwrap_or(current.output_mode@)
    &&& opt_text(new.output_dir) == match patch.output_dir {
        Some(v) => patch_text(Some(v)),
        None => opt_text(current.output_dir),
    }
    &&& new.default_quality == match patch_uint(patch.default_quality) {
        Some(n) => if n > 100 { 100u8 } else { n as u8 },
        None => current.default_quality,
    }
    &&& new.default_format@ == patch_text(patch.default_format).unwrap_or(current.default_format@)
    &&& new.duplicate_hash_distance == match patch_uint(patch.duplicate_hash_distance) {
        Some(n) => n as u32,
        None => current.duplicate_hash_distance,
    }
    &&& new.date_group_granularity@ == patch_text(patch.date_group_granularity).unwrap_or(
        current.date_group_granularity@,
    )
    &&& new.thumbnail_size_px == match patch_uint(patch.thumbnail_size_px) {
        Some(n) => n as u32,
        None => current.thumbnail_size_px,
    }
    &&& new.scan_recursive == match patch.scan_recursive {
        Some(JsonValue::Bool(b)) => b,
        _ => current.scan_recursive,
    }
    &&& new.processing_threads == match patch_uint(patch.processing_threads) {
        Some(n) => n as u32,
        None => current.processing_threads,
    }
}

fn patched_text(v: &Option<JsonValue>, current: &String) -> (r: String)
    ensures
        r@ == patch_text(*v).unwrap_or(current@),
{
    match v {
        Some(JsonValue::Text(t)) => t.clone(),
        _ => current.clone(),
    }
}

fn patched_u32(v: &Option<JsonValue>, current: u32) -> (r: u32)
    ensures
        r == match patch_uint(*v) {
            Some(n) => n as u32,
            None => current,
        },
{
    match v {
        Some(JsonValue::UInt(n)) => *n as u32,
        _ => current,
    }
}

/// Settings after merging the fields that a request provides.
pub fn merge_settings(current: &AppSettings, patch: &SettingsPatch) -> (new: AppSettings)
    ensures
        patched(*current, *patch, new),
{
    let output_dir = match &patch.output_dir {
        Some(JsonValue::Text(d)) => Some(d.clone()),
        Some(_) => None,
        None => match &current.output_dir {
            Some(d) => Some(d.clone()),
            None => None,
        },
    };
    let default_quality = match &patch.default_quality {
        Some(JsonValue::UInt(n)) => if *n > 100 {
            100u8
        } else {
            *n as u8
        },
        _ => current.default_quality,
    };
    let scan_recursive = match &patch.scan_recursive {
        Some(JsonValue::Bool(b)) => *b,
        _ => current.scan_recursive,
    };
    AppSettings {
        output_mode: patched_text(&patch.output_mode, &current.output_mode),
        output_dir,
        default_quality,
        default_format: patched_text(&patch.default_format, &current.default_format),
        duplicate_hash_distance: patched_u32(&patch.duplicate_hash_distance, current.duplicate_hash_distance),
        date_group_granularity: patched_text(&patch.date_group_granularity, &current.date_group_granularity),
        thumbnail_size_px: patched_u32(&patch.thumbnail_size_px, current.thumbnail_size_px),
        scan_recursive,
        processing_threads: patched_u32(&patch.processing_threads, current.processing_threads),
    }
}

/// Settings seen through the views of their text fields.
pub open spec fn settings_view_eq(a: AppSettings, b: AppSettings) -> bool {
    &&& a.output_mode@ == b.output_mode@
    &&& opt_text(a.output_dir) == opt_text(b.output_dir)
    &&& a.default_quality == b.default_quality
    &&& a.default_format@ == b.default_format@
    &&& a.duplicate_hash_distance == b.duplicate_hash_distance
    &&& a.date_group_granularity@ == b.date_group_granularity@
    &&& a.thumbnail_size_px == b.thumbnail_size_px
    &&& a.scan_recursive == b.scan_recursive
    &&& a.processing_threads == b.processing_threads
}

/// A request that mentions no setting leaves the settings as they are.
pub proof fn lemma_empty_patch_keeps_settings(current: AppSettings, new: AppSettings)
    requires
        patched(
            current,
            SettingsPatch {
                output_mode: None,
                output_dir: None,
                default_quality: None,
                default_format: None,
                duplicate_hash_distance: None,
                date_group_granularity: None,
                thumbnail_size_px: None,
                scan_recursive: None,
                processing_threads: None,
            },
            new,
        ),
    ensures
        settings_view_eq(current, new),
{
}

/// Applying the same request twice gives the same settings as applying it once.
pub proof fn lemma_patch_idempotent(current: AppSettings, patch: SettingsPatch, once: AppSettings, twice: AppSettings)
    requires
        patched(current, patch, once),
        patched(once, patch, twice),
    ensures
        settings_view_eq(once, twice),
{
}

/// Loading gives back the settings that saving wrote: when every stored entry
/// parses to the value that saving `s` writes under its key, the loaded settings
/// are `s`.
pub proof fn lemma_saved_settings_load_back(s: AppSettings, stored: StoredSettings, loaded: AppSettings)
    requires
        stored_value(stored.output_mode) == Some(setting_value(s, 0)),
        stored_value(stored.output_dir) == Some(setting_value(s, 1)),
        stored_value(stored.default_quality) == Some(setting_value(s, 2)),
        stored_value(stored.default_format) == Some(setting_value(s, 3)),
        stored_value(stored.duplicate_hash_distance) == Some(setting_value(s, 4)),
        stored_value(stored.date_group_granularity) == Some(setting_value(s, 5)),
        stored_value(stored.thumbnail_size_px) == Some(setting_value(s, 6)),
        stored_value(stored.scan_recursive) == Some(setting_value(s, 7)),
        stored_value(stored.processing_threads) == Some(setting_value(s, 8)),
        loaded_from(stored, loaded),
    ensures
        settings_view_eq(s, loaded),
{
}

/// A request takes effect on every setting it gives a value of the right kind for,
/// and leaves the others as they were: a string sets a text setting; the output
/// folder takes a given string and is cleared by any other value; an integer `n`
/// sets the quality to `n` capped at 100 and the other integer settings to `n` cut
/// to 32 bits; a boolean sets the recursion flag.
pub proof fn lemma_patch_takes_effect(current: AppSettings, patch: SettingsPatch, new: AppSettings)
    requires
        patched(current, patch, new),
    ensures
        patch.output_mode matches Some(JsonValue::Text(t)) ==> new.output_mode@ == t@,
        !(patch.output_mode matches Some(JsonValue::Text(_))) ==> new.output_mode@ == current.output_mode@,
        patch.output_dir matches Some(JsonValue::Text(d)) ==> (new.output_dir matches Some(nd) && nd@ == d@),
        (patch.output_dir matches Some(v) && !(v matches JsonValue::Text(_))) ==> new.output_dir is None,
        patch.output_dir is None ==> opt_text(new.output_dir) == opt_text(current.output_dir),
        patch.default_quality matches Some(JsonValue::UInt(n)) ==> new.default_quality == if n > 100 {
            100
        } else {
            n
        },
        !(patch.default_quality matches Some(JsonValue::UInt(_))) ==> new.default_quality == current.default_quality,
        patch.default_format matches Some(JsonValue::Text(t)) ==> new.default_format@ == t@,
        !(patch.default_format matches Some(JsonValue::Text(_))) ==> new.default_format@ == current.default_format@,
        patch.duplicate_hash_distance matches Some(JsonValue::UInt(n)) ==> new.duplicate_hash_distance == n as u32,
        !(patch.duplicate_hash_distance matches Some(JsonValue::UInt(_))) ==> new.duplicate_hash_distance
            == current.duplicate_hash_distance,
        patch.date_group_granularity matches Some(JsonValue::Text(t)) ==> new.date_group_granularity@ == t@,
        !(patch.date_group_granularity matches Some(JsonValue::Text(_))) ==> new.date_group_granularity@
            == current.date_group_granularity@,
        patch.thumbnail_size_px matches Some(JsonValue::UInt(n)) ==> new.thumbnail_size_px == n as u32,
        !(patch.thumbnail_size_px matches Some(JsonValue::UInt(_))) ==> new.thumbnail_size_px
            == current.thumbnail_size_px,
        patch.scan_recursive matches Some(JsonValue::Bool(b)) ==> new.scan_recursive == b,
        !(patch.scan_recursive matches Some(JsonValue::Bool(_))) ==> new.scan_recursive == current.scan_recursive,
        patch.processing_threads matches Some(JsonValue::UInt(n)) ==> new.processing_threads == n as u32,
        !(patch.processing_threads matches Some(JsonValue::UInt(_))) ==> new.processing_threads
            == current.processing_threads,
{
}

/// Number of worker threads for processing: the setting when it is non-zero,
/// otherwise one less than the number of CPUs (at least one).
pub fn worker_threads(setting: u32, cpus: usize) -> (n: usize)
    ensures
        n == if setting != 0 {
            setting as int
        } else if cpus > 1 {
            cpus - 1
        } else {
            1
        },
{
    if setting != 0 {
        setting as usize
    } else if cpus > 1 {
        cpus - 1
    } else {
        1
    }
}

} // verus!
