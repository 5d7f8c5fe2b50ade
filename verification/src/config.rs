//! The two settings files and the folders the overlay uses.
//!
//! `monado/gestures.json` belongs to the gesture detector, which reloads it whenever
//! it changes; `monado-frame/config.json` holds what only the overlay itself needs.

use vstd::prelude::*;
use vstd::utf8::encode_utf8;
use crate::json;
use crate::json::{bool_of, int_of, json_document, json_pretty, member_of, object_of, Json};

verus! {

/// The shortest hold delay that can be set, in milliseconds.
pub const HOLD_MS_MIN: i32 = 500;

/// The longest hold delay that can be set, in milliseconds.
pub const HOLD_MS_MAX: i32 = 4000;

/// The most days that can be set for screenshots to be kept.
pub const CLEANUP_DAYS_MAX: i32 = 90;

/// The gesture settings, as the detector reads them.
pub struct Settings {
    pub enabled: bool,
    pub hold_ms: i32,
    pub debug: bool,
    pub path: String,
    /// Whether a change waits to be written.
    pub dirty: bool,
}

/// The overlay's own settings.
pub struct AppSettings {
    pub qr_detect: bool,
    pub qr_autodelete: bool,
    /// Days after which a screenshot is removed on launch; none is for 0 or less.
    pub cleanup_days: i32,
    pub path: String,
}

/// The value of a variable that counts only when it is set and not empty.
pub open spec fn set_value(var: Option<&str>) -> Option<Seq<char>> {
    match var {
        Some(v) => if v@.len() > 0 {
            Some(v@)
        } else {
            None
        },
        None => None,
    }
}

/// The home folder, empty where it is not known.
pub open spec fn home_of(home: Option<&str>) -> Seq<char> {
    match home {
        Some(h) => h@,
        None => Seq::empty(),
    }
}

/// The folder for settings: `XDG_CONFIG_HOME`, else `.config` in the home folder.
pub open spec fn config_base(xdg: Option<&str>, home: Option<&str>) -> Seq<char> {
    match set_value(xdg) {
        Some(base) => base,
        None => home_of(home) + "/.config"@,
    }
}

/// The folder watched for screenshots.
pub open spec fn shots_folder(var: Option<&str>, home: Option<&str>) -> Seq<char> {
    match set_value(var) {
        Some(dir) => dir,
        None => home_of(home) + "/Pictures/Monado"@,
    }
}

/// The document a settings file holds; `Null` where it cannot be read or is no JSON.
pub open spec fn document_in(file: Option<Seq<char>>) -> Json {
    match file {
        Some(text) => match json_document(encode_utf8(text)) {
            Ok(j) => j,
            Err(_) => Json::Null,
        },
        None => Json::Null,
    }
}

/// The truth value at `key`, or `default`.
pub open spec fn bool_at(doc: Json, key: Seq<char>, default: bool) -> bool {
    match bool_of(member_of(doc, key)) {
        Some(b) => b,
        None => default,
    }
}

/// The integer at `key` cut down to 32 bits, or `default`.
pub open spec fn int_at(doc: Json, key: Seq<char>, default: i32) -> i32 {
    match int_of(member_of(doc, key)) {
        Some(n) => n as i32,
        None => default,
    }
}

/// What a document says of gestures: enabled, hold delay, debug.
pub open spec fn gesture_values_in(doc: Json) -> (bool, i32, bool) {
    (
        bool_at(doc, "enabled"@, true),
        int_at(doc, "hold_ms"@, 2000),
        bool_at(doc, "debug"@, false),
    )
}

/// What a document says of the overlay: QR detection, QR auto-delete, days kept.
pub open spec fn app_values_in(doc: Json) -> (bool, bool, i32) {
    (
        bool_at(doc, "qr_detect"@, false),
        bool_at(doc, "qr_autodelete"@, false),
        int_at(doc, "cleanup_days"@, 0),
    )
}

/// What the gesture settings file says: enabled, hold delay, debug.
pub open spec fn gesture_values(file: Option<Seq<char>>) -> (bool, i32, bool) {
    gesture_values_in(document_in(file))
}

/// What the overlay's settings file says: QR detection, QR auto-delete, days kept.
pub open spec fn app_values(file: Option<Seq<char>>) -> (bool, bool, i32) {
    app_values_in(document_in(file))
}

/// The document written for gesture settings.
pub open spec fn gesture_document(s: &Settings) -> Json {
    Json::Object(
        object_of(
            seq![
                ("enabled"@, Json::Bool(s.enabled)),
                ("hold_ms"@, Json::Int(s.hold_ms as int)),
                ("debug"@, Json::Bool(s.debug)),
            ],
        ),
    )
}

/// The document written for the overlay's settings.
pub open spec fn app_document(a: &AppSettings) -> Json {
    Json::Object(
        object_of(
            seq![
                ("qr_detect"@, Json::Bool(a.qr_detect)),
                ("qr_autodelete"@, Json::Bool(a.qr_autodelete)),
                ("cleanup_days"@, Json::Int(a.cleanup_days as int)),
            ],
        ),
    )
}

fn config_folder(xdg: Option<&str>, home: Option<&str>) -> (r: String)
    ensures
        r@ == config_base(xdg, home),
{
    match xdg {
        Some(base) => if !base.is_empty() {
            return String::from_str(base);
        },
        None => {},
    }
    let mut base = home_folder(home);
    base.append("/.config");
    base
}

fn home_folder(home: Option<&str>) -> (r: String)
    ensures
        r@ == home_of(home),
{
    match home {
        Some(h) => String::from_str(h),
        None => String::new(),
    }
}

/// The path of the gesture settings, from the values of `XDG_CONFIG_HOME` and `HOME`.
pub fn config_path(xdg: Option<&str>, home: Option<&str>) -> (r: String)
    ensures
        r@ == config_base(xdg, home) + "/monado/gestures.json"@,
{
    let mut path = config_folder(xdg, home);
    path.append("/monado/gestures.json");
    path
}

/// The path of the overlay's settings, from the values of `XDG_CONFIG_HOME` and `HOME`.
pub fn app_config_path(xdg: Option<&str>, home: Option<&str>) -> (r: String)
    ensures
        r@ == config_base(xdg, home) + "/monado-frame/config.json"@,
{
    let mut path = config_folder(xdg, home);
    path.append("/monado-frame/config.json");
    path
}

/// The folder watched for screenshots, from the values of `MONADO_SCREENSHOT_DIR` and
/// `HOME`.
pub fn screenshots_dir(var: Option<&str>, home: Option<&str>) -> (r: String)
    ensures
        r@ == shots_folder(var, home),
{
    match var {
        Some(dir) => if !dir.is_empty() {
            return String::from_str(dir);
        },
        None => {},
    }
    let mut dir = home_folder(home);
    dir.append("/Pictures/Monado");
    dir
}

fn read_bool(doc: &serde_json::Value, key: &str, default: bool) -> (r: bool)
    ensures
        r == bool_at(json::json_of(*doc), key@, default),
{
    match json::as_bool(json::member(doc, key)) {
        Some(b) => b,
        None => default,
    }
}

fn read_int(doc: &serde_json::Value, key: &str, default: i32) -> (r: i32)
    ensures
        r == int_at(json::json_of(*doc), key@, default),
{
    match json::as_i64(json::member(doc, key)) {
        Some(n) => #[verifier::truncate] (n as i32),
        None => default,
    }
}

/// The gesture settings that a document gives. A field that is missing or of another kind
/// has its default.
pub fn settings_in(path: String, doc: &serde_json::Value) -> (s: Settings)
    ensures
        (s.enabled, s.hold_ms, s.debug) == gesture_values_in(json::json_of(*doc)),
        s.path@ == path@,
        !s.dirty,
{
    Settings {
        enabled: read_bool(doc, "enabled", true),
        hold_ms: read_int(doc, "hold_ms", 2000),
        debug: read_bool(doc, "debug", false),
        path,
        dirty: false,
    }
}

/// The overlay's settings that a document gives. A field that is missing or of another
/// kind has its default.
pub fn app_settings_in(path: String, doc: &serde_json::Value) -> (a: AppSettings)
    ensures
        (a.qr_detect, a.qr_autodelete, a.cleanup_days) == app_values_in(json::json_of(*doc)),
        a.path@ == path@,
{
    AppSettings {
        qr_detect: read_bool(doc, "qr_detect", false),
        qr_autodelete: read_bool(doc, "qr_autodelete", false),
        cleanup_days: read_int(doc, "cleanup_days", 0),
        path,
    }
}

/// The gesture settings kept at `path`, from the text of that file where it could be
/// read. A field that is missing or of another kind keeps its default.
pub fn load(path: String, file: Option<&str>) -> (s: Settings)
    ensures
        (s.enabled, s.hold_ms, s.debug) == gesture_values(
            match file {
                Some(text) => Some(text@),
                None => None,
            },
        ),
        s.path@ == path@,
        !s.dirty,
{
    if let Some(text) = file {
        if let Ok(doc) = json::parse(text.as_bytes()) {
            return settings_in(path, &doc);
        }
    }
    Settings { enabled: true, hold_ms: 2000, debug: false, path, dirty: false }
}

/// The text to write to the gesture settings file. It reads as the document of the settings,
/// and loading it again gives the same settings.
pub fn save(s: &Settings) -> (text: String)
    ensures
        text@ == json_pretty(gesture_document(s)),
        json_document(encode_utf8(text@)) == Ok::<Json, Seq<char>>(gesture_document(s)),
        gesture_values(Some(text@)) == (s.enabled, s.hold_ms, s.debug),
{
    let mut fields: Vec<(String, serde_json::Value)> = Vec::new();
    fields.push((String::from_str("enabled"), json::boolean(s.enabled)));
    fields.push((String::from_str("hold_ms"), json::integer(s.hold_ms as i64)));
    fields.push((String::from_str("debug"), json::boolean(s.debug)));
    proof {
        lemma_three_fields(
            "enabled"@,
            Json::Bool(s.enabled),
            "hold_ms"@,
            Json::Int(s.hold_ms as int),
            "debug"@,
            Json::Bool(s.debug),
        );
        reveal_strlit("enabled");
        reveal_strlit("hold_ms");
        reveal_strlit("debug");
        assert("enabled"@[0] != "hold_ms"@[0]);
        assert("enabled"@[0] != "debug"@[0]);
        assert("hold_ms"@[0] != "debug"@[0]);
        assert(json::fields_view(fields@) =~= seq![
            ("enabled"@, Json::Bool(s.enabled)),
            ("hold_ms"@, Json::Int(s.hold_ms as int)),
            ("debug"@, Json::Bool(s.debug)),
        ]);
    }
    let doc = json::object(fields);
    json::write_pretty(&doc).unwrap()
}

/// The overlay's settings kept at `path`, from the text of that file where it could be
/// read. A field that is missing or of another kind keeps its default.
pub fn load_app(path: String, file: Option<&str>) -> (a: AppSettings)
    ensures
        (a.qr_detect, a.qr_autodelete, a.cleanup_days) == app_values(
            match file {
                Some(text) => Some(text@),
                None => None,
            },
        ),
        a.path@ == path@,
{
    if let Some(text) = file {
        if let Ok(doc) = json::parse(text.as_bytes()) {
            return app_settings_in(path, &doc);
        }
    }
    AppSettings { qr_detect: false, qr_autodelete: false, cleanup_days: 0, path }
}

/// The text to write to the overlay's settings file. It reads as the document of the
/// settings, and loading it again gives the same settings.
pub fn save_app(a: &AppSettings) -> (text: String)
    ensures
        text@ == json_pretty(app_document(a)),
        json_document(encode_utf8(text@)) == Ok::<Json, Seq<char>>(app_document(a)),
        app_values(Some(text@)) == (a.qr_detect, a.qr_autodelete, a.cleanup_days),
{
    let mut fields: Vec<(String, serde_json::Value)> = Vec::new();
    fields.push((String::from_str("qr_detect"), json::boolean(a.qr_detect)));
    fields.push((String::from_str("qr_autodelete"), json::boolean(a.qr_autodelete)));
    fields.push((String::from_str("cleanup_days"), json::integer(a.cleanup_days as i64)));
    proof {
        lemma_three_fields(
            "qr_detect"@,
            Json::Bool(a.qr_detect),
            "qr_autodelete"@,
            Json::Bool(a.qr_autodelete),
            "cleanup_days"@,
            Json::Int(a.cleanup_days as int),
        );
        reveal_strlit("qr_detect");
        reveal_strlit("qr_autodelete");
        reveal_strlit("cleanup_days");
        assert("qr_detect"@[3] != "qr_autodelete"@[3]);
        assert("qr_detect"@[0] != "cleanup_days"@[0]);
        assert("qr_autodelete"@[0] != "cleanup_days"@[0]);
        assert(json::fields_view(fields@) =~= seq![
            ("qr_detect"@, Json::Bool(a.qr_detect)),
            ("qr_autodelete"@, Json::Bool(a.qr_autodelete)),
            ("cleanup_days"@, Json::Int(a.cleanup_days as int)),
        ]);
    }
    let doc = json::object(fields);
    json::write_pretty(&doc).unwrap()
}

/// An object of three scalar fields under different keys gives each of them back and
/// can be written and read.
proof fn lemma_three_fields(k1: Seq<char>, v1: Json, k2: Seq<char>, v2: Json, k3: Seq<char>, v3: Json)
    requires
        v1 is Bool || v1 is Int,
        v2 is Bool || v2 is Int,
        v3 is Bool || v3 is Int,
    ensures
        ({
            let doc = Json::Object(object_of(seq![(k1, v1), (k2, v2), (k3, v3)]));
            &&& json::plain_within(doc, json::depth_limit())
            &&& k1 != k2 && k1 != k3 && k2 != k3 ==> member_of(doc, k1) == v1 && member_of(doc, k2)
                == v2 && member_of(doc, k3) == v3
        }),
{
    let all = seq![(k1, v1), (k2, v2), (k3, v3)];
    assert(all.drop_last() =~= seq![(k1, v1), (k2, v2)]);
    assert(all.drop_last().drop_last() =~= seq![(k1, v1)]);
    assert(all.drop_last().drop_last().drop_last() =~= Seq::empty());
    reveal_with_fuel(object_of, 4);
    reveal_with_fuel(json::plain_within, 2);
}

/// The settings folder is the one that was set, where one was and is not empty, and otherwise
/// `.config` in the home folder, whatever that is.
pub proof fn law_settings_folder(xdg: &str, home: &str)
    ensures
        xdg@.len() > 0 ==> config_base(Some(xdg), Some(home)) == xdg@ && config_base(Some(xdg), None)
            == xdg@,
        xdg@.len() == 0 ==> config_base(Some(xdg), Some(home)) == home@ + "/.config"@,
        config_base(None, Some(home)) == home@ + "/.config"@,
        config_base(None, None) == "/.config"@,
{
    assert(Seq::<char>::empty() + "/.config"@ =~= "/.config"@);
}

/// The folder watched is the one that was set, where one was and is not empty, and otherwise
/// `Pictures/Monado` in the home folder.
pub proof fn law_watched_folder(var: &str, home: &str)
    ensures
        var@.len() > 0 ==> shots_folder(Some(var), Some(home)) == var@ && shots_folder(
            Some(var),
            None,
        ) == var@,
        var@.len() == 0 ==> shots_folder(Some(var), Some(home)) == home@ + "/Pictures/Monado"@,
        shots_folder(None, Some(home)) == home@ + "/Pictures/Monado"@,
        shots_folder(None, None) == "/Pictures/Monado"@,
{
    assert(Seq::<char>::empty() + "/Pictures/Monado"@ =~= "/Pictures/Monado"@);
}

/// A field of an object is read as it stands where it is of the right kind, and has its default
/// where it is of another kind or missing; other fields make no difference.
pub proof fn law_field_read(fields: Map<Seq<char>, Json>, key: Seq<char>, b: bool, n: i32)
    ensures
        ({
            let doc = Json::Object(fields);
            &&& fields.contains_key(key) && fields[key] is Bool ==> bool_at(doc, key, b)
                == fields[key]->Bool_0
            &&& !fields.contains_key(key) || !(fields[key] is Bool) ==> bool_at(doc, key, b) == b
            &&& fields.contains_key(key) && fields[key] is Int && i32::MIN <= fields[key]->Int_0
                <= i32::MAX ==> int_at(doc, key, n) == fields[key]->Int_0
            &&& !fields.contains_key(key) || !(fields[key] is Int) ==> int_at(doc, key, n) == n
            &&& fields.contains_key(key) && fields[key] is Int && !(i64::MIN <= fields[key]->Int_0
                <= i64::MAX) ==> int_at(doc, key, n) == n
        }),
{
}

/// Where there is no file, or it is no JSON, or no object, every setting has its default: the
/// gesture on, two seconds, no debugging; no QR detection, nothing deleted, all kept.
pub proof fn law_default_settings(file: Option<Seq<char>>)
    requires
        file is None || json_document(encode_utf8(file->0)) is Err || !(json_document(
            encode_utf8(file->0),
        )->Ok_0 is Object),
    ensures
        gesture_values(file) == (true, 2000i32, false),
        app_values(file) == (false, false, 0i32),
{
}

/// What a file says is read field by field: `enabled`, `hold_ms` and `debug` for gestures, and
/// `qr_detect`, `qr_autodelete` and `cleanup_days` for the overlay.
pub proof fn law_settings_by_field(
    text: Seq<char>,
    fields: Map<Seq<char>, Json>,
    on: bool,
    ms: i32,
    debug: bool,
    days: i32,
)
    requires
        json_document(encode_utf8(text)) == Ok::<Json, Seq<char>>(Json::Object(fields)),
    ensures
        fields.contains_key("enabled"@) && fields["enabled"@] == Json::Bool(on) ==> gesture_values(
            Some(text),
        ).0 == on,
        fields.contains_key("hold_ms"@) && fields["hold_ms"@] == Json::Int(ms as int)
            ==> gesture_values(Some(text)).1 == ms,
        fields.contains_key("debug"@) && fields["debug"@] == Json::Bool(debug) ==> gesture_values(
            Some(text),
        ).2 == debug,
        fields.contains_key("qr_detect"@) && fields["qr_detect"@] == Json::Bool(on) ==> app_values(
            Some(text),
        ).0 == on,
        fields.contains_key("qr_autodelete"@) && fields["qr_autodelete"@] == Json::Bool(on)
            ==> app_values(Some(text)).1 == on,
        fields.contains_key("cleanup_days"@) && fields["cleanup_days"@] == Json::Int(days as int)
            ==> app_values(Some(text)).2 == days,
        !fields.contains_key("enabled"@) ==> gesture_values(Some(text)).0,
        !fields.contains_key("hold_ms"@) ==> gesture_values(Some(text)).1 == 2000,
        !fields.contains_key("debug"@) ==> !gesture_values(Some(text)).2,
        !fields.contains_key("qr_detect"@) ==> !app_values(Some(text)).0,
        !fields.contains_key("qr_autodelete"@) ==> !app_values(Some(text)).1,
        !fields.contains_key("cleanup_days"@) ==> app_values(Some(text)).2 == 0,
{
}

/// The gesture settings are written as an object of three fields, each with its value.
pub proof fn law_gesture_fields(s: Settings)
    ensures
        gesture_document(&s) is Object,
        gesture_document(&s)->Object_0.dom() == set!["enabled"@, "hold_ms"@, "debug"@],
        gesture_document(&s)->Object_0["enabled"@] == Json::Bool(s.enabled),
        gesture_document(&s)->Object_0["hold_ms"@] == Json::Int(s.hold_ms as int),
        gesture_document(&s)->Object_0["debug"@] == Json::Bool(s.debug),
{
    reveal_strlit("enabled");
    reveal_strlit("hold_ms");
    reveal_strlit("debug");
    assert("enabled"@[0] != "hold_ms"@[0]);
    assert("enabled"@[0] != "debug"@[0]);
    assert("hold_ms"@[0] != "debug"@[0]);
    lemma_three_keys(
        "enabled"@,
        Json::Bool(s.enabled),
        "hold_ms"@,
        Json::Int(s.hold_ms as int),
        "debug"@,
        Json::Bool(s.debug),
    );
}

/// The overlay's settings are written as an object of three fields, each with its value.
pub proof fn law_app_fields(a: AppSettings)
    ensures
        app_document(&a) is Object,
        app_document(&a)->Object_0.dom() == set!["qr_detect"@, "qr_autodelete"@, "cleanup_days"@],
        app_document(&a)->Object_0["qr_detect"@] == Json::Bool(a.qr_detect),
        app_document(&a)->Object_0["qr_autodelete"@] == Json::Bool(a.qr_autodelete),
        app_document(&a)->Object_0["cleanup_days"@] == Json::Int(a.cleanup_days as int),
{
    reveal_strlit("qr_detect");
    reveal_strlit("qr_autodelete");
    reveal_strlit("cleanup_days");
    assert("qr_detect"@[3] != "qr_autodelete"@[3]);
    assert("qr_detect"@[0] != "cleanup_days"@[0]);
    assert("qr_autodelete"@[0] != "cleanup_days"@[0]);
    lemma_three_keys(
        "qr_detect"@,
        Json::Bool(a.qr_detect),
        "qr_autodelete"@,
        Json::Bool(a.qr_autodelete),
        "cleanup_days"@,
        Json::Int(a.cleanup_days as int),
    );
}

proof fn lemma_three_keys(k1: Seq<char>, v1: Json, k2: Seq<char>, v2: Json, k3: Seq<char>, v3: Json)
    requires
        k1 != k2,
        k1 != k3,
        k2 != k3,
    ensures
        ({
            let all = object_of(seq![(k1, v1), (k2, v2), (k3, v3)]);
            all.dom() == set![k1, k2, k3] && all[k1] == v1 && all[k2] == v2 && all[k3] == v3
        }),
{
    let all = seq![(k1, v1), (k2, v2), (k3, v3)];
    assert(all.drop_last() =~= seq![(k1, v1), (k2, v2)]);
    assert(all.drop_last().drop_last() =~= seq![(k1, v1)]);
    assert(all.drop_last().drop_last().drop_last() =~= Seq::empty());
    reveal_with_fuel(object_of, 4);
    assert(object_of(all).dom() =~= set![k1, k2, k3]);
}

} // verus!
