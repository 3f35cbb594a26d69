//! The IDE's `settings.json`: reading it into a member list, setting and
//! clearing the proxy entries, and writing it back.

use vstd::prelude::*;
use crate::json::{
    entry_keys_unique, entries_map, members_of, json_is_object, json_object_entries, json_object_of, json_parse,
    json_string_value, json_bool_value, json_pretty_text, json_error_message, parse_json,
    json_object_members, json_object, json_string, json_bool, json_to_string_pretty,
    json_error_to_string,
};
use crate::text::{has_suffix, ends_with, str_eq};
use crate::launch::{path_debug, path_debug_text};
use crate::platform::{Platform, PathBase, PathSpec, PathView, PathBaseView, path_spec};

verus! {

/// Address of the local proxy that the IDE is pointed at.
pub const LOCAL_PROXY_URL: &'static str = "http://127.0.0.1:8047";

/// A member value of the settings object: one the library writes, or one
/// read from the file and carried through untouched.
pub enum SettingValue {
    Text(String),
    Flag(bool),
    Json(serde_json::Value),
}

/// Mathematical view of [`SettingValue`].
pub enum SettingValueView {
    Text(Seq<char>),
    Flag(bool),
    Json(serde_json::Value),
}

impl View for SettingValue {
    type V = SettingValueView;

    open spec fn view(&self) -> SettingValueView {
        match self {
            SettingValue::Text(s) => SettingValueView::Text(s@),
            SettingValue::Flag(b) => SettingValueView::Flag(*b),
            SettingValue::Json(v) => SettingValueView::Json(*v),
        }
    }
}

/// A parsed settings file: a JSON object as a member list, or any other JSON value.
pub enum SettingsDocument {
    Object(Vec<(String, SettingValue)>),
    Other(serde_json::Value),
}

/// Mathematical view of [`SettingsDocument`]: the object's members as a map.
pub enum SettingsView {
    Object(Map<Seq<char>, SettingValueView>),
    Other(serde_json::Value),
}

/// Members of a list as `(key, value)` views.
pub open spec fn members_view(m: Seq<(String, SettingValue)>) -> Seq<(Seq<char>, SettingValueView)> {
    m.map_values(|p: (String, SettingValue)| (p.0@, p.1@))
}

/// The map that a member list with distinct keys denotes.
pub open spec fn member_map(m: Seq<(Seq<char>, SettingValueView)>) -> Map<Seq<char>, SettingValueView>
    decreases m.len(),
{
    if m.len() == 0 {
        Map::empty()
    } else {
        member_map(m.drop_last()).insert(m.last().0, m.last().1)
    }
}

impl View for SettingsDocument {
    type V = SettingsView;

    open spec fn view(&self) -> SettingsView {
        match self {
            SettingsDocument::Object(m) => SettingsView::Object(member_map(members_view(m@))),
            SettingsDocument::Other(v) => SettingsView::Other(*v),
        }
    }
}

impl SettingsDocument {
    /// An object's member keys are distinct.
    pub open spec fn wf(&self) -> bool {
        match self {
            SettingsDocument::Object(m) => entry_keys_unique(members_view(m@)),
            SettingsDocument::Other(_) => true,
        }
    }
}

/// `url` with `/v1` appended unless it already ends with it.
pub open spec fn v1_endpoint(url: Seq<char>) -> Seq<char> {
    if has_suffix(url, "/v1"@) {
        url
    } else {
        url + "/v1"@
    }
}

/// The members that route the IDE through the local proxy and switch its telemetry off.
pub open spec fn with_proxy_settings(
    m: Map<Seq<char>, SettingValueView>,
    proxy_url: Seq<char>,
) -> Map<Seq<char>, SettingValueView> {
    m.insert("antigravity.proxyBaseUrl"@, SettingValueView::Text(v1_endpoint(proxy_url)))
        .insert("http.proxy"@, SettingValueView::Text(LOCAL_PROXY_URL@))
        .insert("http.proxyStrictSSL"@, SettingValueView::Flag(false))
        .insert("telemetry.telemetryLevel"@, SettingValueView::Text("off"@))
        .insert("telemetry.enableCrashReporter"@, SettingValueView::Flag(false))
        .insert("telemetry.enableTelemetry"@, SettingValueView::Flag(false))
}

/// The members without the three proxy routing entries.
pub open spec fn without_proxy_settings(m: Map<Seq<char>, SettingValueView>) -> Map<
    Seq<char>,
    SettingValueView,
> {
    m.remove("antigravity.proxyBaseUrl"@).remove("http.proxy"@).remove("http.proxyStrictSSL"@)
}

/// What setting the proxy does to a document: objects gain the entries, other values stay.
pub open spec fn apply_proxy_view(d: SettingsView, proxy_url: Seq<char>) -> SettingsView {
    match d {
        SettingsView::Object(m) => SettingsView::Object(with_proxy_settings(m, proxy_url)),
        SettingsView::Other(v) => SettingsView::Other(v),
    }
}

/// What clearing the proxy does to a document: objects lose the entries, other values stay.
pub open spec fn clear_proxy_view(d: SettingsView) -> SettingsView {
    match d {
        SettingsView::Object(m) => SettingsView::Object(without_proxy_settings(m)),
        SettingsView::Other(v) => SettingsView::Other(v),
    }
}

/// The members that setting the proxy overwrites, as they were before.
pub open spec fn saved_members(m: Map<Seq<char>, SettingValueView>) -> Map<Seq<char>, SettingValueView> {
    m.restrict(Set::new(|k: Seq<char>| is_proxy_managed_key(k)))
}

/// The members of `m` that the proxy does not manage, with the members
/// `saved` before the proxy was set put back.
pub open spec fn restore_members(
    m: Map<Seq<char>, SettingValueView>,
    saved: Map<Seq<char>, SettingValueView>,
) -> Map<Seq<char>, SettingValueView> {
    m.restrict(Set::new(|k: Seq<char>| !is_proxy_managed_key(k))).union_prefer_right(saved)
}

/// What a document holds under the keys the proxy manages; nothing for a
/// value that is not an object.
pub open spec fn saved_of_view(d: SettingsView) -> Map<Seq<char>, SettingValueView> {
    match d {
        SettingsView::Object(m) => saved_members(m),
        SettingsView::Other(_) => Map::empty(),
    }
}

/// What clearing the proxy does to a document. With the members saved when
/// the proxy was set, an object gets back what it held under the six keys
/// the proxy manages; without them (nothing was saved in this session) the
/// three routing entries are removed. Other values stay.
pub open spec fn restore_view(d: SettingsView, saved: Option<Map<Seq<char>, SettingValueView>>) -> SettingsView {
    match d {
        SettingsView::Object(m) => SettingsView::Object(
            match saved {
                Some(s) => restore_members(m, s),
                None => without_proxy_settings(m),
            },
        ),
        SettingsView::Other(v) => SettingsView::Other(v),
    }
}

/// The document that a parsed JSON value is read as.
pub open spec fn settings_of_json(v: serde_json::Value) -> SettingsView {
    if json_is_object(v) {
        SettingsView::Object(
            member_map(
                json_object_entries(v).map_values(
                    |p: (Seq<char>, serde_json::Value)| (p.0, SettingValueView::Json(p.1)),
                ),
            ),
        )
    } else {
        SettingsView::Other(v)
    }
}

/// The document that the settings file's text is read as; a missing file or
/// text that is not JSON reads as an empty object.
pub open spec fn settings_of_text(content: Option<Seq<char>>) -> SettingsView {
    match content {
        Some(t) => match json_parse(t) {
            Some(v) => settings_of_json(v),
            None => SettingsView::Object(Map::empty()),
        },
        None => SettingsView::Object(Map::empty()),
    }
}

/// The JSON value that a member value is written as.
pub open spec fn setting_json(v: SettingValueView) -> serde_json::Value {
    match v {
        SettingValueView::Text(s) => json_string_value(s),
        SettingValueView::Flag(b) => json_bool_value(b),
        SettingValueView::Json(j) => j,
    }
}

/// The JSON value that a document is written as.
pub open spec fn document_json(d: SettingsView) -> serde_json::Value {
    match d {
        SettingsView::Object(m) => json_object_of(m.map_values(|v: SettingValueView| setting_json(v))),
        SettingsView::Other(v) => v,
    }
}

/// View of an optional text.
pub open spec fn opt_text(content: Option<&str>) -> Option<Seq<char>> {
    match content {
        Some(c) => Some(c@),
        None => None,
    }
}

// ---------------------------------------------------------------------------
// Member lists

proof fn lemma_member_map_contains(m: Seq<(Seq<char>, SettingValueView)>, k: Seq<char>)
    ensures
        member_map(m).dom().contains(k) <==> exists|i: int| 0 <= i < m.len() && m[i].0 == k,
    decreases m.len(),
{
    if m.len() > 0 {
        lemma_member_map_contains(m.drop_last(), k);
        if member_map(m).dom().contains(k) && m.last().0 != k {
            let i = choose|i: int| 0 <= i < m.len() - 1 && m.drop_last()[i].0 == k;
            assert(m[i].0 == k);
        }
        if exists|i: int| 0 <= i < m.len() && m[i].0 == k {
            let i = choose|i: int| 0 <= i < m.len() && m[i].0 == k;
            if i < m.len() - 1 {
                assert(m.drop_last()[i].0 == k);
            }
        }
    }
}

proof fn lemma_member_map_update(m: Seq<(Seq<char>, SettingValueView)>, i: int, v: SettingValueView)
    requires
        entry_keys_unique(m),
        0 <= i < m.len(),
    ensures
        member_map(m.update(i, (m[i].0, v))) == member_map(m).insert(m[i].0, v),
    decreases m.len(),
{
    let u = m.update(i, (m[i].0, v));
    if i == m.len() - 1 {
        assert(u.drop_last() =~= m.drop_last());
        assert(member_map(u) =~= member_map(m).insert(m[i].0, v));
    } else {
        assert(u.drop_last() =~= m.drop_last().update(i, (m[i].0, v)));
        lemma_member_map_update(m.drop_last(), i, v);
        assert(m.last().0 != m[i].0);
        assert(member_map(u) =~= member_map(m).insert(m[i].0, v));
    }
}

proof fn lemma_member_map_remove(m: Seq<(Seq<char>, SettingValueView)>, i: int)
    requires
        entry_keys_unique(m),
        0 <= i < m.len(),
    ensures
        member_map(m.remove(i)) == member_map(m).remove(m[i].0),
    decreases m.len(),
{
    let r = m.remove(i);
    if i == m.len() - 1 {
        assert(r =~= m.drop_last());
        assert forall|j: int| 0 <= j < r.len() implies #[trigger] r[j].0 != m[i].0 by {}
        lemma_member_map_contains(r, m[i].0);
        assert(member_map(r) =~= member_map(m).remove(m[i].0));
    } else {
        assert(r.drop_last() =~= m.drop_last().remove(i));
        assert(r.last() == m.last());
        lemma_member_map_remove(m.drop_last(), i);
        assert(m.last().0 != m[i].0);
        assert(member_map(r) =~= member_map(m).remove(m[i].0));
    }
}

proof fn lemma_member_map_absent(m: Seq<(Seq<char>, SettingValueView)>, k: Seq<char>)
    requires
        forall|j: int| 0 <= j < m.len() ==> #[trigger] m[j].0 != k,
    ensures
        member_map(m).remove(k) == member_map(m),
{
    lemma_member_map_contains(m, k);
    assert(member_map(m).remove(k) =~= member_map(m));
}

/// Index of the member whose key is `key`.
fn find_member(m: &Vec<(String, SettingValue)>, key: &str) -> (res: Option<usize>)
    ensures
        res matches Some(i) ==> i < m@.len() && m@[i as int].0@ == key@,
        res is None ==> forall|j: int| 0 <= j < m@.len() ==> #[trigger] m@[j].0@ != key@,
{
    let mut i: usize = 0;
    while i < m.len()
        invariant
            i <= m@.len(),
            forall|j: int| 0 <= j < i ==> #[trigger] m@[j].0@ != key@,
        decreases m@.len() - i,
    {
        if crate::text::str_eq(m[i].0.as_str(), key) {
            return Some(i);
        }
        i = i + 1;
    }
    None
}

/// Sets member `key` to `value`, replacing an existing member of that key.
pub fn set_member(m: &mut Vec<(String, SettingValue)>, key: &str, value: SettingValue)
    requires
        entry_keys_unique(members_view(old(m)@)),
    ensures
        entry_keys_unique(members_view(final(m)@)),
        member_map(members_view(final(m)@)) == member_map(members_view(old(m)@)).insert(key@, value@),
{
    let ghost old_view = members_view(m@);
    let ghost old_m = m@;
    let ghost val = value@;
    match find_member(m, key) {
        Some(i) => {
            m.set(i, (String::from_str(key), value));
            proof {
                assert(members_view(m@) =~= old_view.update(i as int, (old_view[i as int].0, val)));
                lemma_member_map_update(old_view, i as int, val);
            }
        },
        None => {
            m.push((String::from_str(key), value));
            proof {
                let nv = members_view(m@);
                assert(nv.drop_last() =~= old_view);
                assert forall|a: int, b: int| 0 <= a < b < nv.len() implies nv[a].0 != nv[b].0 by {
                    if b == nv.len() - 1 {
                        assert(old_m[a].0@ != key@);
                        assert(nv[a] == old_view[a]);
                        assert(nv[b].0 == key@);
                    } else {
                        assert(nv[a] == old_view[a]);
                        assert(nv[b] == old_view[b]);
                    }
                }
            }
        },
    }
}

/// Removes member `key`, if there is one.
pub fn remove_member(m: &mut Vec<(String, SettingValue)>, key: &str)
    requires
        entry_keys_unique(members_view(old(m)@)),
    ensures
        entry_keys_unique(members_view(final(m)@)),
        member_map(members_view(final(m)@)) == member_map(members_view(old(m)@)).remove(key@),
{
    let ghost old_view = members_view(m@);
    match find_member(m, key) {
        Some(i) => {
            m.remove(i);
            proof {
                assert(members_view(m@) =~= old_view.remove(i as int));
                lemma_member_map_remove(old_view, i as int);
                let nv = members_view(m@);
                assert forall|a: int, b: int| 0 <= a < b < nv.len() implies nv[a].0 != nv[b].0 by {
                    let oa = if a < i { a } else { a + 1 };
                    let ob = if b < i { b } else { b + 1 };
                    assert(nv[a] == old_view[oa]);
                    assert(nv[b] == old_view[ob]);
                }
            }
        },
        None => {
            proof {
                assert forall|j: int| 0 <= j < old_view.len() implies #[trigger] old_view[j].0 != key@ by {
                    assert(old_view[j].0 == m@[j].0@);
                }
                lemma_member_map_absent(old_view, key@);
            }
        },
    }
}

// ---------------------------------------------------------------------------
// Proxy entries

/// `url` with `/v1` appended unless it already ends with it.
pub fn with_v1_suffix(url: &str) -> (res: String)
    ensures
        res@ == v1_endpoint(url@),
{
    if ends_with(url, "/v1") {
        String::from_str(url)
    } else {
        String::from_str(url).concat("/v1")
    }
}

/// Removes the proxy base URL, proxy address and TLS relaxation from an
/// object; any other JSON value is left as it is.
pub fn remove_proxy_settings(doc: SettingsDocument) -> (res: SettingsDocument)
    requires
        doc.wf(),
    ensures
        res.wf(),
        res@ == clear_proxy_view(doc@),
{
    match doc {
        SettingsDocument::Object(members) => {
            let mut m = members;
            remove_member(&mut m, "antigravity.proxyBaseUrl");
            remove_member(&mut m, "http.proxy");
            remove_member(&mut m, "http.proxyStrictSSL");
            SettingsDocument::Object(m)
        },
        SettingsDocument::Other(v) => SettingsDocument::Other(v),
    }
}


// ---------------------------------------------------------------------------
// Saving and restoring what the proxy overwrites

/// The members of a settings object that setting the proxy overwrote, as
/// they were before, to be put back when the proxy is cleared.
pub struct ProxyBackup {
    saved: Vec<(String, SettingValue)>,
}

impl ProxyBackup {
    #[verifier::type_invariant]
    spec fn keys_unique(self) -> bool {
        entry_keys_unique(members_view(self.saved@))
    }
}

impl View for ProxyBackup {
    type V = Map<Seq<char>, SettingValueView>;

    closed spec fn view(&self) -> Map<Seq<char>, SettingValueView> {
        member_map(members_view(self.saved@))
    }
}

proof fn lemma_member_map_get(m: Seq<(Seq<char>, SettingValueView)>, i: int)
    requires
        entry_keys_unique(m),
        0 <= i < m.len(),
    ensures
        member_map(m).dom().contains(m[i].0),
        member_map(m)[m[i].0] == m[i].1,
    decreases m.len(),
{
    if i < m.len() - 1 {
        lemma_member_map_get(m.drop_last(), i);
        assert(m.last().0 != m[i].0);
    }
}

/// Sets member `key` to `value` and hands back the value it replaced.
fn replace_member(m: &mut Vec<(String, SettingValue)>, key: &str, value: SettingValue) -> (prev: Option<SettingValue>)
    requires
        entry_keys_unique(members_view(old(m)@)),
    ensures
        entry_keys_unique(members_view(final(m)@)),
        member_map(members_view(final(m)@)) == member_map(members_view(old(m)@)).insert(key@, value@),
        match prev {
            Some(p) => member_map(members_view(old(m)@)).dom().contains(key@) && member_map(
                members_view(old(m)@),
            )[key@] == p@,
            None => !member_map(members_view(old(m)@)).dom().contains(key@),
        },
{
    let ghost old_view = members_view(m@);
    let ghost val = value@;
    match find_member(m, key) {
        Some(i) => {
            let (_, p) = m.remove(i);
            m.insert(i, (String::from_str(key), value));
            proof {
                assert(members_view(m@) =~= old_view.update(i as int, (old_view[i as int].0, val)));
                lemma_member_map_update(old_view, i as int, val);
                lemma_member_map_get(old_view, i as int);
                let nv = members_view(m@);
                assert forall|a: int, b: int| 0 <= a < b < nv.len() implies nv[a].0 != nv[b].0 by {
                    assert(nv[a].0 == old_view[a].0 && nv[b].0 == old_view[b].0);
                }
            }
            Some(p)
        },
        None => {
            proof {
                lemma_member_map_contains(old_view, key@);
                assert forall|j: int| 0 <= j < old_view.len() implies old_view[j].0 != key@ by {
                    assert(old_view[j].0 == m@[j].0@);
                }
            }
            set_member(m, key, value);
            None
        },
    }
}

/// Sets member `key` to `value`, first saving the value it had.
fn save_and_set(
    m: &mut Vec<(String, SettingValue)>,
    saved: &mut Vec<(String, SettingValue)>,
    key: &str,
    value: SettingValue,
)
    requires
        entry_keys_unique(members_view(old(m)@)),
        entry_keys_unique(members_view(old(saved)@)),
        !member_map(members_view(old(saved)@)).dom().contains(key@),
    ensures
        entry_keys_unique(members_view(final(m)@)),
        entry_keys_unique(members_view(final(saved)@)),
        member_map(members_view(final(m)@)) == member_map(members_view(old(m)@)).insert(key@, value@),
        member_map(members_view(final(saved)@)) == (if member_map(members_view(old(m)@)).dom().contains(key@) {
            member_map(members_view(old(saved)@)).insert(key@, member_map(members_view(old(m)@))[key@])
        } else {
            member_map(members_view(old(saved)@))
        }),
{
    let ghost os = members_view(saved@);
    match replace_member(m, key, value) {
        Some(p) => {
            saved.push((String::from_str(key), p));
            proof {
                let nv = members_view(saved@);
                assert(nv.drop_last() =~= os);
                lemma_member_map_contains(os, key@);
                assert forall|a: int, b: int| 0 <= a < b < nv.len() implies nv[a].0 != nv[b].0 by {
                    if b == nv.len() - 1 {
                        assert(nv[a] == os[a]);
                    } else {
                        assert(nv[a] == os[a] && nv[b] == os[b]);
                    }
                }
            }
        },
        None => {},
    }
}

/// Points the settings at the local proxy: an object gains the proxy base URL
/// (`proxy_url`, ending in `/v1`), the proxy address, the TLS relaxation and
/// the telemetry switches, and what it held under those six keys before is
/// saved; any other JSON value is left as it is, and nothing is saved.
pub fn apply_proxy_settings(doc: SettingsDocument, proxy_url: &str) -> (res: (SettingsDocument, ProxyBackup))
    requires
        doc.wf(),
    ensures
        res.0.wf(),
        res.0@ == apply_proxy_view(doc@, proxy_url@),
        res.1@ == saved_of_view(doc@),
{
    match doc {
        SettingsDocument::Object(members) => {
            let mut m = members;
            let mut saved: Vec<(String, SettingValue)> = Vec::new();
            let ghost m0 = member_map(members_view(m@));
            proof {
                lemma_keys_distinct();
                assert(members_view(saved@) =~= Seq::<(Seq<char>, SettingValueView)>::empty());
            }
            save_and_set(&mut m, &mut saved, "antigravity.proxyBaseUrl", SettingValue::Text(with_v1_suffix(proxy_url)));
            save_and_set(&mut m, &mut saved, "http.proxy", SettingValue::Text(String::from_str(LOCAL_PROXY_URL)));
            save_and_set(&mut m, &mut saved, "http.proxyStrictSSL", SettingValue::Flag(false));
            save_and_set(&mut m, &mut saved, "telemetry.telemetryLevel", SettingValue::Text(String::from_str("off")));
            save_and_set(&mut m, &mut saved, "telemetry.enableCrashReporter", SettingValue::Flag(false));
            save_and_set(&mut m, &mut saved, "telemetry.enableTelemetry", SettingValue::Flag(false));
            let backup = ProxyBackup { saved };
            proof {
                assert(backup@ =~= saved_members(m0));
                assert(member_map(members_view(m@)) =~= with_proxy_settings(m0, proxy_url@));
            }
            (SettingsDocument::Object(m), backup)
        },
        SettingsDocument::Other(v) => {
            let backup = ProxyBackup { saved: Vec::new() };
            proof {
                assert(members_view(backup.saved@) =~= Seq::<(Seq<char>, SettingValueView)>::empty());
                assert(backup@ =~= Map::<Seq<char>, SettingValueView>::empty());
            }
            (SettingsDocument::Other(v), backup)
        },
    }
}

/// Clears the proxy from the settings. With the members saved when it was
/// set, an object gets back what it held under the six keys the proxy
/// manages; without them the three routing entries are removed. Any other
/// JSON value is left as it is.
pub fn restore_proxy_settings(doc: SettingsDocument, saved: Option<ProxyBackup>) -> (res: SettingsDocument)
    requires
        doc.wf(),
    ensures
        res.wf(),
        res@ == restore_view(doc@, match saved {
            Some(b) => Some(b@),
            None => None,
        }),
{
    match saved {
        None => remove_proxy_settings(doc),
        Some(backup) => {
            proof {
                use_type_invariant(&backup);
            }
            let ghost bview = backup@;
            match doc {
                SettingsDocument::Object(members) => {
                    let mut m = members;
                    let ghost m0 = member_map(members_view(m@));
                    remove_member(&mut m, "antigravity.proxyBaseUrl");
                    remove_member(&mut m, "http.proxy");
                    remove_member(&mut m, "http.proxyStrictSSL");
                    remove_member(&mut m, "telemetry.telemetryLevel");
                    remove_member(&mut m, "telemetry.enableCrashReporter");
                    remove_member(&mut m, "telemetry.enableTelemetry");
                    let ghost stripped = member_map(members_view(m@));
                    proof {
                        assert(stripped =~= m0.restrict(Set::new(|k: Seq<char>| !is_proxy_managed_key(k))));
                    }
                    let ProxyBackup { saved: mut s } = backup;
                    let ghost target = stripped.union_prefer_right(bview);
                    proof {
                        assert(member_map(members_view(m@)).union_prefer_right(member_map(members_view(s@)))
                            =~= target);
                    }
                    while s.len() > 0
                        invariant
                            entry_keys_unique(members_view(m@)),
                            entry_keys_unique(members_view(s@)),
                            member_map(members_view(m@)).union_prefer_right(member_map(members_view(s@)))
                                == target,
                        decreases s@.len(),
                    {
                        let ghost os = members_view(s@);
                        let ghost om = member_map(members_view(m@));
                        match s.pop() {
                            Some((k, v)) => {
                                proof {
                                    let rest = members_view(s@);
                                    assert(os.drop_last() =~= rest);
                                    assert(os.last() == (k@, v@));
                                    assert(member_map(os) == member_map(rest).insert(k@, v@));
                                    lemma_member_map_contains(rest, k@);
                                    assert forall|a: int, b: int| 0 <= a < b < rest.len() implies rest[a].0
                                        != rest[b].0 by {
                                        assert(rest[a] == os[a] && rest[b] == os[b]);
                                    }
                                    assert(!member_map(rest).dom().contains(k@)) by {
                                        if member_map(rest).dom().contains(k@) {
                                            let j = choose|j: int| 0 <= j < rest.len() && rest[j].0 == k@;
                                            assert(os[j].0 == os[os.len() - 1].0);
                                        }
                                    }
                                    assert(om.insert(k@, v@).union_prefer_right(member_map(rest))
                                        =~= om.union_prefer_right(member_map(os)));
                                }
                                set_member(&mut m, k.as_str(), v);
                            },
                            None => {},
                        }
                    }
                    proof {
                        assert(members_view(s@) =~= Seq::<(Seq<char>, SettingValueView)>::empty());
                        assert(member_map(members_view(m@)) =~= target);
                    }
                    SettingsDocument::Object(m)
                },
                SettingsDocument::Other(v) => SettingsDocument::Other(v),
            }
        },
    }
}

/// What the session remembers of a tool's settings: nothing (the proxy was
/// not set in this session), the members saved when the proxy was first
/// set, or that they were put back already.
pub enum SettingsMemory {
    Nothing,
    Saved(ProxyBackup),
    Restored,
}

/// Mathematical view of [`SettingsMemory`].
pub enum SettingsMemoryView {
    Nothing,
    Saved(Map<Seq<char>, SettingValueView>),
    Restored,
}

impl View for SettingsMemory {
    type V = SettingsMemoryView;

    open spec fn view(&self) -> SettingsMemoryView {
        match self {
            SettingsMemory::Nothing => SettingsMemoryView::Nothing,
            SettingsMemory::Saved(b) => SettingsMemoryView::Saved(b@),
            SettingsMemory::Restored => SettingsMemoryView::Restored,
        }
    }
}

/// What the session remembers once the proxy is set and `taken` was saved:
/// members saved by an earlier setting, not yet put back, are the original
/// ones and are kept; otherwise `taken`.
pub fn remember_setting(memory: SettingsMemory, taken: ProxyBackup) -> (res: SettingsMemory)
    ensures
        res@ == match memory@ {
            SettingsMemoryView::Saved(k) => SettingsMemoryView::Saved(k),
            _ => SettingsMemoryView::Saved(taken@),
        },
{
    match memory {
        SettingsMemory::Saved(k) => SettingsMemory::Saved(k),
        _ => SettingsMemory::Saved(taken),
    }
}

/// What clearing the proxy does to a settings file.
pub enum ClearAction {
    /// Remove the three routing entries (nothing was saved in this session).
    RemoveRouting,
    /// Put back the saved members.
    Restore(ProxyBackup),
    /// Leave the file: the saved members were put back already.
    Leave,
}

/// Mathematical view of [`ClearAction`].
pub enum ClearActionView {
    RemoveRouting,
    Restore(Map<Seq<char>, SettingValueView>),
    Leave,
}

impl View for ClearAction {
    type V = ClearActionView;

    open spec fn view(&self) -> ClearActionView {
        match self {
            ClearAction::RemoveRouting => ClearActionView::RemoveRouting,
            ClearAction::Restore(b) => ClearActionView::Restore(b@),
            ClearAction::Leave => ClearActionView::Leave,
        }
    }
}

/// How clearing the proxy proceeds from what the session remembers, and
/// what it remembers afterwards: saved members are put back once, and a
/// second clearing leaves the restored file alone.
pub fn clearing_step(memory: SettingsMemory) -> (res: (ClearAction, SettingsMemory))
    ensures
        match memory@ {
            SettingsMemoryView::Nothing => res.0@ == ClearActionView::RemoveRouting && res.1@
                == SettingsMemoryView::Nothing,
            SettingsMemoryView::Saved(b) => res.0@ == ClearActionView::Restore(b) && res.1@
                == SettingsMemoryView::Restored,
            SettingsMemoryView::Restored => res.0@ == ClearActionView::Leave && res.1@
                == SettingsMemoryView::Restored,
        },
{
    match memory {
        SettingsMemory::Nothing => (ClearAction::RemoveRouting, SettingsMemory::Nothing),
        SettingsMemory::Saved(b) => (ClearAction::Restore(b), SettingsMemory::Restored),
        SettingsMemory::Restored => (ClearAction::Leave, SettingsMemory::Restored),
    }
}

// ---------------------------------------------------------------------------
// Reading and writing

/// A member read from the file, carried as its JSON value.
pub open spec fn carried_member(p: (String, serde_json::Value)) -> (Seq<char>, SettingValueView) {
    (p.0@, SettingValueView::Json(p.1))
}

/// A member as it is written.
pub open spec fn written_member(p: (Seq<char>, SettingValueView)) -> (Seq<char>, serde_json::Value) {
    (p.0, setting_json(p.1))
}

/// Members read from the file, carried as their JSON values.
pub open spec fn carried_members(s: Seq<(String, serde_json::Value)>) -> Seq<(Seq<char>, SettingValueView)> {
    s.map_values(|p: (String, serde_json::Value)| carried_member(p))
}

/// Members as they are written.
pub open spec fn written_members(s: Seq<(Seq<char>, SettingValueView)>) -> Seq<(Seq<char>, serde_json::Value)> {
    s.map_values(|p: (Seq<char>, SettingValueView)| written_member(p))
}

proof fn lemma_entries_map_of_members(m: Seq<(Seq<char>, SettingValueView)>)
    ensures
        entries_map(written_members(m)) == member_map(m).map_values(|v: SettingValueView| setting_json(v)),
    decreases m.len(),
{
    if m.len() > 0 {
        lemma_entries_map_of_members(m.drop_last());
        assert(written_members(m).drop_last() =~= written_members(m.drop_last()));
        assert(entries_map(written_members(m)) =~= member_map(m).map_values(
            |v: SettingValueView| setting_json(v),
        ));
    } else {
        assert(entries_map(written_members(m)) =~= member_map(m).map_values(
            |v: SettingValueView| setting_json(v),
        ));
    }
}

/// The JSON value a member value is written as.
fn setting_to_json(v: SettingValue) -> (res: serde_json::Value)
    ensures
        res == setting_json(v@),
{
    match v {
        SettingValue::Text(s) => json_string(s.as_str()),
        SettingValue::Flag(b) => json_bool(b),
        SettingValue::Json(j) => j,
    }
}

/// Reads a parsed JSON value as a settings document: an object becomes its
/// member list, any other value is kept as it is.
pub fn settings_from_json(v: serde_json::Value) -> (doc: SettingsDocument)
    ensures
        doc.wf(),
        doc@ == settings_of_json(v),
{
    match json_object_members(v) {
        Ok(members) => {
            let ghost orig = members@;
            let mut src = members;
            let mut out: Vec<(String, SettingValue)> = Vec::new();
            while src.len() > 0
                invariant
                    src@.len() <= orig.len(),
                    src@ == orig.subrange(0, src@.len() as int),
                    members_view(out@) == carried_members(orig.subrange(src@.len() as int, orig.len() as int)),
                decreases src@.len(),
            {
                let ghost n = src@.len();
                let ghost old_out = out@;
                let popped = src.pop().unwrap();
                proof {
                    assert(orig.subrange(0, n as int)[n - 1] == orig[n - 1]);
                    assert(popped == orig[n - 1]);
                }
                let (k, val) = popped;
                out.insert(0, (k, SettingValue::Json(val)));
                proof {
                    let target = carried_members(orig.subrange(n - 1, orig.len() as int));
                    let mv = members_view(out@);
                    assert(members_view(old_out).len() == old_out.len());
                    assert(old_out.len() == orig.len() - n);
                    assert(out@.len() == old_out.len() + 1);
                    assert forall|i: int| 0 <= i < target.len() implies mv[i] == target[i] by {
                        if i > 0 {
                            assert(out@[i] == old_out[i - 1]);
                            assert(mv[i] == members_view(old_out)[i - 1]);
                            assert(members_view(old_out)[i - 1] == carried_members(orig.subrange(n as int, orig.len() as int))[i - 1]);
                        } else {
                            assert(out@[0].0 == popped.0);
                            assert(out@[0].1@ == SettingValueView::Json(popped.1));
                            assert(mv[0] == (out@[0].0@, out@[0].1@));
                            assert(mv[0] == carried_member(orig[n - 1]));
                        }
                    }
                    assert(mv =~= target);
                }
            }
            proof {
                let entries = json_object_entries(v);
                let view = members_view(out@);
                assert(orig.subrange(0, orig.len() as int) =~= orig);
                assert(view =~= entries.map_values(
                    |p: (Seq<char>, serde_json::Value)| (p.0, SettingValueView::Json(p.1)),
                )) by {
                    assert forall|i: int| 0 <= i < view.len() implies view[i] == (
                        entries[i].0,
                        SettingValueView::Json(entries[i].1),
                    ) by {
                        assert(entries[i] == (orig[i].0@, orig[i].1));
                    }
                }
                assert forall|a: int, b: int| 0 <= a < b < view.len() implies view[a].0 != view[b].0 by {
                    assert(view[a].0 == entries[a].0);
                    assert(view[b].0 == entries[b].0);
                }
            }
            SettingsDocument::Object(out)
        },
        Err(w) => SettingsDocument::Other(w),
    }
}

/// Reads the settings file's text (`None` where there is no file) as a
/// document; text that is not JSON reads as an empty object.
pub fn settings_from_text(content: Option<&str>) -> (doc: SettingsDocument)
    ensures
        doc.wf(),
        doc@ == settings_of_text(opt_text(content)),
{
    match content {
        Some(text) => match parse_json(text) {
            Some(v) => settings_from_json(v),
            None => {
                let doc = SettingsDocument::Object(Vec::new());
                assert(doc@ == SettingsView::Object(Map::<Seq<char>, SettingValueView>::empty())) by {
                    assert(members_view(Seq::<(String, SettingValue)>::empty()) =~= Seq::empty());
                }
                doc
            },
        },
        None => {
            let doc = SettingsDocument::Object(Vec::new());
            assert(doc@ == SettingsView::Object(Map::<Seq<char>, SettingValueView>::empty())) by {
                assert(members_view(Seq::<(String, SettingValue)>::empty()) =~= Seq::empty());
            }
            doc
        },
    }
}

/// Builds the JSON value of a document.
pub fn settings_to_json(doc: SettingsDocument) -> (res: serde_json::Value)
    requires
        doc.wf(),
    ensures
        res == document_json(doc@),
{
    match doc {
        SettingsDocument::Object(members) => {
            let ghost orig = members_view(members@);
            let mut src = members;
            let mut out: Vec<(String, serde_json::Value)> = Vec::new();
            while src.len() > 0
                invariant
                    src@.len() <= orig.len(),
                    members_view(src@) == orig.subrange(0, src@.len() as int),
                    members_of(out@) == written_members(orig.subrange(src@.len() as int, orig.len() as int)),
                decreases src@.len(),
            {
                let ghost n = src@.len();
                let ghost before = src@;
                let (k, val) = src.pop().unwrap();
                proof {
                    assert(members_view(src@) =~= members_view(before).drop_last());
                    assert(members_view(before)[n - 1] == orig[n - 1]);
                }
                let ghost old_out = out@;
                let j = setting_to_json(val);
                out.insert(0, (k, j));
                proof {
                    assert(members_view(src@) =~= orig.subrange(0, n - 1));
                    let target = written_members(orig.subrange(n - 1, orig.len() as int));
                    let mv = members_of(out@);
                    assert(orig.subrange(0, n as int)[n - 1] == orig[n - 1]);
                    assert(members_of(old_out).len() == old_out.len());
                    assert(old_out.len() == orig.len() - n);
                    assert(out@.len() == old_out.len() + 1);
                    assert forall|i: int| 0 <= i < target.len() implies mv[i] == target[i] by {
                        if i > 0 {
                            assert(out@[i] == old_out[i - 1]);
                            assert(mv[i] == members_of(old_out)[i - 1]);
                        }
                    }
                    assert(mv =~= target);
                }
            }
            proof {
                assert(orig.subrange(0, orig.len() as int) =~= orig);
                lemma_entries_map_of_members(orig);
            }
            json_object(out)
        },
        SettingsDocument::Other(v) => v,
    }
}

/// Writes a document as indented JSON; an error of the writer would be passed
/// on as its message, but the writer does not fail on a JSON value.
pub fn settings_to_text(doc: SettingsDocument) -> (res: Result<String, String>)
    requires
        doc.wf(),
    ensures
        res is Ok,
        res matches Ok(s) ==> s@ == json_pretty_text(document_json(doc@)),
        res matches Err(e) ==> exists|x: serde_json::Error| e@ == json_error_message(x),
{
    let v = settings_to_json(doc);
    match json_to_string_pretty(&v) {
        Ok(s) => Ok(s),
        Err(e) => Err(json_error_to_string(&e)),
    }
}

/// The error reported when the settings file at `path` cannot be written,
/// `cause` being the message of the failure; the path is shown as `{:?}`
/// shows it.
pub fn settings_write_error(path: &str, cause: &str) -> (res: String)
    ensures
        res@ == "Failed to write to "@ + path_debug_text(path@) + ": "@ + cause@,
{
    String::from_str("Failed to write to ").concat(path_debug(path).as_str()).concat(": ").concat(cause)
}

/// The new text of the settings file once it points at the local proxy:
/// the current text (`None` where there is no file) read as a document, the
/// proxy entries set with base URL `proxy_url` (ending in `/v1`), written as
/// indented JSON; with it, the members the proxy overwrote, to put back when
/// it is cleared. The writer does not fail on a JSON value, so this always
/// succeeds; a document that is not an object is written back unchanged.
pub fn proxy_settings_text(content: Option<&str>, proxy_url: &str) -> (res: Result<(String, ProxyBackup), String>)
    ensures
        res is Ok,
        res matches Ok((s, b)) ==> s@ == json_pretty_text(
            document_json(apply_proxy_view(settings_of_text(opt_text(content)), proxy_url@)),
        ) && b@ == saved_of_view(settings_of_text(opt_text(content))),
        res matches Err(e) ==> exists|x: serde_json::Error| e@ == json_error_message(x),
{
    let doc = settings_from_text(content);
    let (doc, backup) = apply_proxy_settings(doc, proxy_url);
    match settings_to_text(doc) {
        Ok(s) => Ok((s, backup)),
        Err(e) => Err(e),
    }
}

/// The new text of the settings file once the proxy is cleared (see
/// [`restore_proxy_settings`]: with the members `saved` when it was set,
/// they are put back), or `None` where nothing is to be written because the
/// text is not JSON.
pub fn cleared_settings_text(content: &str, saved: Option<ProxyBackup>) -> (res: Option<String>)
    ensures
        res is Some <==> json_parse(content@) is Some,
        res matches Some(s) ==> json_parse(content@) matches Some(v) && s@ == json_pretty_text(
            document_json(restore_view(settings_of_json(v), match saved {
                Some(b) => Some(b@),
                None => None,
            })),
        ),
{
    match parse_json(content) {
        Some(v) => {
            let doc = settings_from_json(v);
            let doc = restore_proxy_settings(doc, saved);
            match settings_to_text(doc) {
                Ok(s) => Some(s),
                Err(_) => None,
            }
        },
        None => None,
    }
}

// ---------------------------------------------------------------------------
// Laws

/// The six members that setting the proxy writes.
pub open spec fn is_proxy_managed_key(k: Seq<char>) -> bool {
    ||| k == "antigravity.proxyBaseUrl"@
    ||| k == "http.proxy"@
    ||| k == "http.proxyStrictSSL"@
    ||| k == "telemetry.telemetryLevel"@
    ||| k == "telemetry.enableCrashReporter"@
    ||| k == "telemetry.enableTelemetry"@
}

proof fn lemma_keys_distinct()
    ensures
        "antigravity.proxyBaseUrl"@ != "http.proxy"@,
        "antigravity.proxyBaseUrl"@ != "http.proxyStrictSSL"@,
        "http.proxy"@ != "http.proxyStrictSSL"@,
        "telemetry.telemetryLevel"@ != "antigravity.proxyBaseUrl"@,
        "telemetry.telemetryLevel"@ != "http.proxy"@,
        "telemetry.telemetryLevel"@ != "http.proxyStrictSSL"@,
        "telemetry.enableCrashReporter"@ != "antigravity.proxyBaseUrl"@,
        "telemetry.enableCrashReporter"@ != "http.proxy"@,
        "telemetry.enableCrashReporter"@ != "http.proxyStrictSSL"@,
        "telemetry.enableTelemetry"@ != "antigravity.proxyBaseUrl"@,
        "telemetry.enableTelemetry"@ != "http.proxy"@,
        "telemetry.enableTelemetry"@ != "http.proxyStrictSSL"@,
        "telemetry.telemetryLevel"@ != "telemetry.enableCrashReporter"@,
        "telemetry.telemetryLevel"@ != "telemetry.enableTelemetry"@,
        "telemetry.enableCrashReporter"@ != "telemetry.enableTelemetry"@,
{
    reveal_strlit("antigravity.proxyBaseUrl");
    reveal_strlit("http.proxy");
    reveal_strlit("http.proxyStrictSSL");
    reveal_strlit("telemetry.telemetryLevel");
    reveal_strlit("telemetry.enableCrashReporter");
    reveal_strlit("telemetry.enableTelemetry");
    assert("antigravity.proxyBaseUrl"@[0] != "http.proxy"@[0]);
    assert("antigravity.proxyBaseUrl"@[0] != "http.proxyStrictSSL"@[0]);
    assert("http.proxy"@.len() != "http.proxyStrictSSL"@.len());
    assert("telemetry.telemetryLevel"@[0] != "antigravity.proxyBaseUrl"@[0]);
    assert("telemetry.telemetryLevel"@[0] != "http.proxy"@[0]);
    assert("telemetry.telemetryLevel"@[0] != "http.proxyStrictSSL"@[0]);
    assert("telemetry.enableCrashReporter"@[0] != "antigravity.proxyBaseUrl"@[0]);
    assert("telemetry.enableCrashReporter"@[0] != "http.proxy"@[0]);
    assert("telemetry.enableCrashReporter"@[0] != "http.proxyStrictSSL"@[0]);
    assert("telemetry.enableTelemetry"@[0] != "antigravity.proxyBaseUrl"@[0]);
    assert("telemetry.enableTelemetry"@[0] != "http.proxy"@[0]);
    assert("telemetry.enableTelemetry"@[0] != "http.proxyStrictSSL"@[0]);
    assert("telemetry.telemetryLevel"@[10] != "telemetry.enableCrashReporter"@[10]);
    assert("telemetry.telemetryLevel"@[10] != "telemetry.enableTelemetry"@[10]);
    assert("telemetry.enableCrashReporter"@.len() != "telemetry.enableTelemetry"@.len());
}

/// Setting the proxy leaves every member other than the six it writes as it was.
pub proof fn law_apply_keeps_other_members(
    m: Map<Seq<char>, SettingValueView>,
    proxy_url: Seq<char>,
    k: Seq<char>,
)
    requires
        !is_proxy_managed_key(k),
    ensures
        with_proxy_settings(m, proxy_url).dom().contains(k) == m.dom().contains(k),
        m.dom().contains(k) ==> with_proxy_settings(m, proxy_url)[k] == m[k],
{
}

/// Clearing without saved members leaves every member other than the three
/// routing entries it removes as it was.
pub proof fn law_clear_keeps_other_members(m: Map<Seq<char>, SettingValueView>, k: Seq<char>)
    requires
        k != "antigravity.proxyBaseUrl"@,
        k != "http.proxy"@,
        k != "http.proxyStrictSSL"@,
    ensures
        without_proxy_settings(m).dom().contains(k) == m.dom().contains(k),
        m.dom().contains(k) ==> without_proxy_settings(m)[k] == m[k],
{
}

/// Setting the proxy twice with the same URL is setting it once.
pub proof fn law_apply_idempotent(m: Map<Seq<char>, SettingValueView>, proxy_url: Seq<char>)
    ensures
        with_proxy_settings(with_proxy_settings(m, proxy_url), proxy_url) == with_proxy_settings(
            m,
            proxy_url,
        ),
{
    lemma_keys_distinct();
    assert(with_proxy_settings(with_proxy_settings(m, proxy_url), proxy_url) =~= with_proxy_settings(
        m,
        proxy_url,
    ));
}

/// Clearing twice without saved members is clearing once.
pub proof fn law_clear_idempotent(m: Map<Seq<char>, SettingValueView>)
    ensures
        without_proxy_settings(without_proxy_settings(m)) == without_proxy_settings(m),
{
    assert(without_proxy_settings(without_proxy_settings(m)) =~= without_proxy_settings(m));
}

/// Clearing after setting, with the members saved when setting, gives back
/// the original members.
pub proof fn law_restore_after_apply(m: Map<Seq<char>, SettingValueView>, proxy_url: Seq<char>)
    ensures
        restore_members(with_proxy_settings(m, proxy_url), saved_members(m)) == m,
{
    lemma_keys_distinct();
    assert(restore_members(with_proxy_settings(m, proxy_url), saved_members(m)) =~= m);
}

/// Setting the proxy again keeps the backup of the first setting, and
/// clearing with it still gives back the original members.
pub proof fn law_restore_after_apply_twice(
    m: Map<Seq<char>, SettingValueView>,
    first_url: Seq<char>,
    second_url: Seq<char>,
)
    ensures
        restore_members(with_proxy_settings(with_proxy_settings(m, first_url), second_url), saved_members(m))
            == m,
{
    lemma_keys_distinct();
    assert(restore_members(with_proxy_settings(with_proxy_settings(m, first_url), second_url), saved_members(m))
        =~= m);
}

/// Clearing twice with the same saved members is clearing once.
pub proof fn law_restore_idempotent(m: Map<Seq<char>, SettingValueView>, saved: Map<Seq<char>, SettingValueView>)
    requires
        forall|k: Seq<char>| #[trigger] saved.dom().contains(k) ==> is_proxy_managed_key(k),
    ensures
        restore_members(restore_members(m, saved), saved) == restore_members(m, saved),
{
    assert(restore_members(restore_members(m, saved), saved) =~= restore_members(m, saved));
}

/// Clearing after setting, with what setting saved, gives back the original
/// document, whether an object or another value.
pub proof fn law_restore_view_after_apply(d: SettingsView, proxy_url: Seq<char>)
    ensures
        restore_view(apply_proxy_view(d, proxy_url), Some(saved_of_view(d))) == d,
{
    match d {
        SettingsView::Object(m) => {
            law_restore_after_apply(m, proxy_url);
        },
        SettingsView::Other(_) => {},
    }
}

/// The proxy base URL written into the settings always ends with `/v1`, and
/// normalising an already normalised URL changes nothing.
pub proof fn law_v1_endpoint(url: Seq<char>)
    ensures
        has_suffix(v1_endpoint(url), "/v1"@),
        v1_endpoint(v1_endpoint(url)) == v1_endpoint(url),
        !has_suffix(url, "/v1"@) ==> v1_endpoint(url) == url + "/v1"@,
{
    reveal_strlit("/v1");
    let s = url + "/v1"@;
    assert(s.subrange(s.len() - 3, s.len() as int) =~= "/v1"@);
}

/// The settings file text that pointing the IDE at the proxy writes, given
/// the current text (`None` where there is no file).
pub open spec fn proxy_text(content: Option<Seq<char>>, proxy_url: Seq<char>) -> Seq<char> {
    json_pretty_text(document_json(apply_proxy_view(settings_of_text(content), proxy_url)))
}

/// Two documents are written as the same JSON: objects whose members are
/// written as the same values, or the same other value.
pub open spec fn written_alike(a: SettingsView, b: SettingsView) -> bool {
    match (a, b) {
        (SettingsView::Object(ma), SettingsView::Object(mb)) => ma.map_values(
            |v: SettingValueView| setting_json(v),
        ) == mb.map_values(|v: SettingValueView| setting_json(v)),
        (SettingsView::Other(x), SettingsView::Other(y)) => x == y,
        _ => false,
    }
}

proof fn lemma_written_alike_apply(a: SettingsView, b: SettingsView, proxy_url: Seq<char>)
    requires
        written_alike(a, b),
    ensures
        written_alike(apply_proxy_view(a, proxy_url), apply_proxy_view(b, proxy_url)),
        document_json(a) == document_json(b),
{
    match (a, b) {
        (SettingsView::Object(ma), SettingsView::Object(mb)) => {
            let wa = with_proxy_settings(ma, proxy_url).map_values(|v: SettingValueView| setting_json(v));
            let wb = with_proxy_settings(mb, proxy_url).map_values(|v: SettingValueView| setting_json(v));
            let fa = ma.map_values(|v: SettingValueView| setting_json(v));
            let fb = mb.map_values(|v: SettingValueView| setting_json(v));
            assert(ma.dom() =~= mb.dom()) by {
                assert(fa.dom() == ma.dom());
                assert(fb.dom() == mb.dom());
            }
            assert forall|k: Seq<char>| #[trigger] wa.dom().contains(k) implies wb.dom().contains(k)
                && wa[k] == wb[k] by {
                if ma.dom().contains(k) {
                    assert(fa[k] == fb[k]);
                }
            }
            assert(wa =~= wb);
        },
        _ => {},
    }
}

proof fn lemma_written_alike_restore(a: SettingsView, b: SettingsView, saved: Map<Seq<char>, SettingValueView>)
    requires
        written_alike(a, b),
    ensures
        written_alike(restore_view(a, Some(saved)), restore_view(b, Some(saved))),
{
    match (a, b) {
        (SettingsView::Object(ma), SettingsView::Object(mb)) => {
            let wa = restore_members(ma, saved).map_values(|v: SettingValueView| setting_json(v));
            let wb = restore_members(mb, saved).map_values(|v: SettingValueView| setting_json(v));
            let fa = ma.map_values(|v: SettingValueView| setting_json(v));
            let fb = mb.map_values(|v: SettingValueView| setting_json(v));
            assert(ma.dom() =~= mb.dom()) by {
                assert(fa.dom() == ma.dom());
                assert(fb.dom() == mb.dom());
            }
            assert forall|k: Seq<char>| #[trigger] wa.dom().contains(k) implies wb.dom().contains(k)
                && wa[k] == wb[k] by {
                if ma.dom().contains(k) {
                    assert(fa[k] == fb[k]);
                }
            }
            assert(wa =~= wb);
        },
        _ => {},
    }
}

/// Clearing the file that pointing the IDE at the proxy wrote, with the
/// members saved then, writes the original document back, provided the
/// written file reads back as the document that was written.
pub proof fn law_cleared_text_restores(content: Option<Seq<char>>, proxy_url: Seq<char>)
    requires
        written_alike(
            settings_of_text(Some(proxy_text(content, proxy_url))),
            apply_proxy_view(settings_of_text(content), proxy_url),
        ),
    ensures
        json_parse(proxy_text(content, proxy_url)) matches Some(v) ==> json_pretty_text(
            document_json(restore_view(settings_of_json(v), Some(saved_of_view(settings_of_text(content))))),
        ) == json_pretty_text(document_json(settings_of_text(content))),
{
    let d0 = settings_of_text(content);
    let d1 = apply_proxy_view(d0, proxy_url);
    let d2 = settings_of_text(Some(proxy_text(content, proxy_url)));
    let saved = saved_of_view(d0);
    lemma_written_alike_restore(d2, d1, saved);
    lemma_written_alike_apply(restore_view(d2, Some(saved)), restore_view(d1, Some(saved)), proxy_url);
    law_restore_view_after_apply(d0, proxy_url);
}

/// Pointing the IDE at the proxy a second time writes the same file as the
/// first time, provided the file written the first time reads back as the
/// document that was written.
pub proof fn law_proxy_text_idempotent(content: Option<Seq<char>>, proxy_url: Seq<char>)
    requires
        written_alike(
            settings_of_text(Some(proxy_text(content, proxy_url))),
            apply_proxy_view(settings_of_text(content), proxy_url),
        ),
    ensures
        proxy_text(Some(proxy_text(content, proxy_url)), proxy_url) == proxy_text(content, proxy_url),
{
    let d0 = settings_of_text(content);
    let d1 = apply_proxy_view(d0, proxy_url);
    let d2 = settings_of_text(Some(proxy_text(content, proxy_url)));
    lemma_written_alike_apply(d2, d1, proxy_url);
    lemma_written_alike_apply(apply_proxy_view(d2, proxy_url), apply_proxy_view(d1, proxy_url), proxy_url);
    match d0 {
        SettingsView::Object(m) => {
            law_apply_idempotent(m, proxy_url);
        },
        _ => {},
    }
    assert(apply_proxy_view(d1, proxy_url) == d1);
}

/// Pointing the IDE at a URL without `/v1` writes the same file as pointing
/// it at that URL with `/v1` appended.
pub proof fn law_proxy_text_v1(content: Option<Seq<char>>, proxy_url: Seq<char>)
    requires
        !has_suffix(proxy_url, "/v1"@),
    ensures
        proxy_text(content, proxy_url + "/v1"@) == proxy_text(content, proxy_url),
{
    law_v1_endpoint(proxy_url);
    law_v1_endpoint(proxy_url + "/v1"@);
    assert(v1_endpoint(proxy_url + "/v1"@) == v1_endpoint(proxy_url));
}


// ---------------------------------------------------------------------------
// Location

/// Where the IDE's (or the desktop app's) `settings.json` is, and the error
/// reported where its base directory is unknown.
pub open spec fn settings_location(ide_type: Seq<char>, platform: Platform) -> (PathView, Seq<char>) {
    let desktop = ide_type == "Antigravity 2.0"@;
    match platform {
        Platform::MacOs => (PathView {
            base: PathBaseView::Home,
            parts: seq!["Library/Application Support/"@ + (if desktop { "Antigravity"@ } else { "Antigravity IDE"@ })
                + "/User/settings.json"@],
        }, "Failed to get home directory"@),
        Platform::Windows => (PathView {
            base: PathBaseView::Env("APPDATA"@),
            parts: seq![(if desktop { "antigravity"@ } else { "Antigravity IDE"@ }) + "\\User\\settings.json"@],
        }, "Failed to get APPDATA environment variable"@),
        Platform::Linux => (PathView {
            base: PathBaseView::Home,
            parts: seq![".config/"@ + (if desktop { "Antigravity"@ } else { "Antigravity IDE"@ }) + "/User/settings.json"@],
        }, "Failed to get home directory"@),
    }
}

/// Where each tool keeps its `settings.json`: the desktop app
/// (`Antigravity 2.0`) under `Antigravity` (`antigravity` on Windows), every
/// other tool under `Antigravity IDE`; in `~/Library/Application Support` on
/// macOS, `%APPDATA%` on Windows and `~/.config` on Linux.
pub proof fn law_settings_locations(ide_type: Seq<char>)
    ensures
        ide_type == "Antigravity 2.0"@ ==> {
            &&& settings_location(ide_type, Platform::Linux).0 == (PathView {
                base: PathBaseView::Home,
                parts: seq![".config/Antigravity/User/settings.json"@],
            })
            &&& settings_location(ide_type, Platform::MacOs).0 == (PathView {
                base: PathBaseView::Home,
                parts: seq!["Library/Application Support/Antigravity/User/settings.json"@],
            })
            &&& settings_location(ide_type, Platform::Windows).0 == (PathView {
                base: PathBaseView::Env("APPDATA"@),
                parts: seq!["antigravity\\User\\settings.json"@],
            })
        },
        ide_type != "Antigravity 2.0"@ ==> {
            &&& settings_location(ide_type, Platform::Linux).0 == (PathView {
                base: PathBaseView::Home,
                parts: seq![".config/Antigravity IDE/User/settings.json"@],
            })
            &&& settings_location(ide_type, Platform::MacOs).0 == (PathView {
                base: PathBaseView::Home,
                parts: seq!["Library/Application Support/Antigravity IDE/User/settings.json"@],
            })
            &&& settings_location(ide_type, Platform::Windows).0 == (PathView {
                base: PathBaseView::Env("APPDATA"@),
                parts: seq!["Antigravity IDE\\User\\settings.json"@],
            })
        },
{
    reveal_strlit(".config/");
    reveal_strlit("Library/Application Support/");
    reveal_strlit("Antigravity");
    reveal_strlit("antigravity");
    reveal_strlit("Antigravity IDE");
    reveal_strlit("/User/settings.json");
    reveal_strlit("\\User\\settings.json");
    reveal_strlit(".config/Antigravity/User/settings.json");
    reveal_strlit(".config/Antigravity IDE/User/settings.json");
    reveal_strlit("Library/Application Support/Antigravity/User/settings.json");
    reveal_strlit("Library/Application Support/Antigravity IDE/User/settings.json");
    reveal_strlit("antigravity\\User\\settings.json");
    reveal_strlit("Antigravity IDE\\User\\settings.json");
    assert(".config/"@ + "Antigravity"@ + "/User/settings.json"@ =~= ".config/Antigravity/User/settings.json"@);
    assert(".config/"@ + "Antigravity IDE"@ + "/User/settings.json"@ =~= ".config/Antigravity IDE/User/settings.json"@);
    assert("Library/Application Support/"@ + "Antigravity"@ + "/User/settings.json"@
        =~= "Library/Application Support/Antigravity/User/settings.json"@);
    assert("Library/Application Support/"@ + "Antigravity IDE"@ + "/User/settings.json"@
        =~= "Library/Application Support/Antigravity IDE/User/settings.json"@);
    assert("antigravity"@ + "\\User\\settings.json"@ =~= "antigravity\\User\\settings.json"@);
    assert("Antigravity IDE"@ + "\\User\\settings.json"@ =~= "Antigravity IDE\\User\\settings.json"@);
}

/// The location of the tool's `settings.json` (see [`settings_location`]).
pub fn get_ide_settings_path(ide_type: &str, platform: Platform) -> (res: (PathSpec, String))
    ensures
        res.0@ == settings_location(ide_type@, platform).0,
        res.1@ == settings_location(ide_type@, platform).1,
{
    let desktop = str_eq(ide_type, "Antigravity 2.0");
    match platform {
        Platform::MacOs => {
            let sub = if desktop { "Antigravity" } else { "Antigravity IDE" };
            let rel = String::from_str("Library/Application Support/").concat(sub).concat("/User/settings.json");
            let r = rel.as_str();
            let p = path_spec(PathBase::Home, &[r]);
            assert(p@.parts =~= seq![r@]);
            (p, String::from_str("Failed to get home directory"))
        },
        Platform::Windows => {
            let sub = if desktop { "antigravity" } else { "Antigravity IDE" };
            let rel = String::from_str(sub).concat("\\User\\settings.json");
            let r = rel.as_str();
            let p = path_spec(PathBase::Env(String::from_str("APPDATA")), &[r]);
            assert(p@.parts =~= seq![r@]);
            (p, String::from_str("Failed to get APPDATA environment variable"))
        },
        Platform::Linux => {
            let sub = if desktop { "Antigravity" } else { "Antigravity IDE" };
            let rel = String::from_str(".config/").concat(sub).concat("/User/settings.json");
            let r = rel.as_str();
            let p = path_spec(PathBase::Home, &[r]);
            assert(p@.parts =~= seq![r@]);
            (p, String::from_str("Failed to get home directory"))
        },
    }
}

} // verus!
