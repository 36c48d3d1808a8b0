//! JSON values as the settings loader handles them: merging the user's
//! config over an inherited one, and finding the inherited one.
use vstd::prelude::*;

use crate::cli::{spec_expand_tilde, known_or_root, opt_view};
use crate::paths::{join, path_join};
use crate::text::{chars_of, str_eq, string_from_chars};

verus! {

/// A JSON value. Numbers are kept in their written form; an object keeps
/// its members in order, each key once.
#[derive(Debug)]
pub enum Json {
    Null,
    Bool(bool),
    Number(String),
    Str(String),
    Array(Vec<Json>),
    Object(Vec<(String, Json)>),
}

/// A JSON value as plain values.
pub enum JsonV {
    Null,
    Bool(bool),
    Number(Seq<char>),
    Str(Seq<char>),
    Array(Seq<JsonV>),
    Object(Seq<(Seq<char>, JsonV)>),
}

pub open spec fn json_view(j: Json) -> JsonV
    decreases j, 1nat,
{
    match j {
        Json::Null => JsonV::Null,
        Json::Bool(b) => JsonV::Bool(b),
        Json::Number(n) => JsonV::Number(n@),
        Json::Str(s) => JsonV::Str(s@),
        Json::Array(items) => JsonV::Array(items_view(items@)),
        Json::Object(members) => JsonV::Object(members_view(members@)),
    }
}

pub open spec fn items_view(s: Seq<Json>) -> Seq<JsonV>
    decreases s, 0nat,
{
    if s.len() == 0 {
        Seq::empty()
    } else {
        items_view(s.drop_last()).push(json_view(s.last()))
    }
}

pub open spec fn members_view(s: Seq<(String, Json)>) -> Seq<(Seq<char>, JsonV)>
    decreases s, 0nat,
{
    if s.len() == 0 {
        Seq::empty()
    } else {
        members_view(s.drop_last()).push((s.last().0@, json_view(s.last().1)))
    }
}

/// The position of the member named `key`.
pub open spec fn member_index(m: Seq<(Seq<char>, JsonV)>, key: Seq<char>) -> Option<int>
    decreases m.len(),
{
    if m.len() == 0 {
        None
    } else {
        match member_index(m.drop_last(), key) {
            Some(i) => Some(i),
            None => if m.last().0 == key {
                Some(m.len() - 1)
            } else {
                None
            },
        }
    }
}

/// `overlay` laid over `base`: objects are merged member by member (a
/// member of both is merged in turn, one only in the overlay is added at
/// the end); anything else in the overlay replaces what the base has.
pub open spec fn spec_merge(base: JsonV, overlay: JsonV) -> JsonV
    decreases overlay, 1nat,
{
    match overlay {
        JsonV::Object(om) => match base {
            JsonV::Object(bm) => JsonV::Object(merge_members(bm, om)),
            _ => JsonV::Object(om),
        },
        _ => overlay,
    }
}

/// The members of `bm` with each member of `om` merged in, in order.
pub open spec fn merge_members(bm: Seq<(Seq<char>, JsonV)>, om: Seq<(Seq<char>, JsonV)>) -> Seq<
    (Seq<char>, JsonV),
>
    decreases om, 0nat,
{
    if om.len() == 0 {
        bm
    } else {
        let prev = merge_members(bm, om.drop_last());
        let (k, v) = om.last();
        match member_index(prev, k) {
            Some(i) => prev.update(i, (k, spec_merge(prev[i].1, v))),
            None => prev.push((k, v)),
        }
    }
}

proof fn lemma_member_index(m: Seq<(Seq<char>, JsonV)>, key: Seq<char>)
    ensures
        member_index(m, key) matches Some(i) ==> 0 <= i < m.len() && m[i].0 == key,
        member_index(m, key) is None ==> forall|j: int| 0 <= j < m.len() ==> m[j].0 != key,
    decreases m.len(),
{
    if m.len() > 0 {
        lemma_member_index(m.drop_last(), key);
        assert forall|j: int| 0 <= j < m.len() - 1 implies m[j] == m.drop_last()[j] by {}
    }
}

proof fn lemma_members_view_len(s: Seq<(String, Json)>)
    ensures
        members_view(s).len() == s.len(),
        forall|i: int|
            0 <= i < s.len() ==> #[trigger] members_view(s)[i] == (s[i].0@, json_view(s[i].1)),
    decreases s.len(),
{
    if s.len() > 0 {
        lemma_members_view_len(s.drop_last());
        assert forall|i: int| 0 <= i < s.len() implies #[trigger] members_view(s)[i] == (
            s[i].0@,
            json_view(s[i].1),
        ) by {
            if i < s.len() - 1 {
                assert(s.drop_last()[i] == s[i]);
            }
        }
    }
}

pub(crate) proof fn lemma_items_view_len(s: Seq<Json>)
    ensures
        items_view(s).len() == s.len(),
        forall|i: int| 0 <= i < s.len() ==> #[trigger] items_view(s)[i] == json_view(s[i]),
    decreases s.len(),
{
    if s.len() > 0 {
        lemma_items_view_len(s.drop_last());
        assert forall|i: int| 0 <= i < s.len() implies #[trigger] items_view(s)[i] == json_view(s[i]) by {
            if i < s.len() - 1 {
                assert(s.drop_last()[i] == s[i]);
            }
        }
    }
}

fn find_member(m: &Vec<(String, Json)>, key: &str) -> (r: Option<usize>)
    ensures
        match r {
            Some(i) => member_index(members_view(m@), key@) == Some(i as int),
            None => member_index(members_view(m@), key@) is None,
        },
{
    proof {
        lemma_members_view_len(m@);
        lemma_member_index(members_view(m@), key@);
    }
    let mut i: usize = 0;
    while i < m.len()
        invariant
            i <= m@.len(),
            members_view(m@).len() == m@.len(),
            forall|j: int|
                0 <= j < m@.len() ==> #[trigger] members_view(m@)[j] == (m@[j].0@, json_view(m@[j].1)),
            forall|j: int| 0 <= j < i ==> members_view(m@)[j].0 != key@,
        decreases m@.len() - i,
    {
        if str_eq(m[i].0.as_str(), key) {
            proof {
                lemma_first_member(members_view(m@), key@, i as int);
            }
            return Some(i);
        }
        i = i + 1;
    }
    proof {
        lemma_first_member(members_view(m@), key@, m@.len() as int);
    }
    None
}

proof fn lemma_first_member(m: Seq<(Seq<char>, JsonV)>, key: Seq<char>, i: int)
    requires
        0 <= i <= m.len(),
        forall|j: int| 0 <= j < i ==> m[j].0 != key,
    ensures
        i < m.len() && m[i].0 == key ==> member_index(m, key) == Some(i),
        i == m.len() ==> member_index(m, key) is None,
    decreases m.len(),
{
    if m.len() > 0 {
        if i < m.len() {
            if i < m.len() - 1 {
                lemma_first_member(m.drop_last(), key, i);
            } else {
                lemma_first_member(m.drop_last(), key, i);
            }
        } else {
            lemma_first_member(m.drop_last(), key, i - 1);
        }
    }
}

proof fn lemma_members_view_take(s: Seq<(String, Json)>, k: int)
    requires
        0 <= k <= s.len(),
    ensures
        members_view(s.take(k)) == members_view(s).take(k),
{
    lemma_members_view_len(s);
    lemma_members_view_len(s.take(k));
    assert(members_view(s.take(k)) =~= members_view(s).take(k));
}

fn merged(base: Json, overlay: Json) -> (r: Json)
    ensures
        json_view(r) == spec_merge(json_view(base), json_view(overlay)),
    decreases overlay, 1nat,
{
    let ghost ov = overlay;
    match overlay {
        Json::Object(om) => {
            match base {
                Json::Object(bm) => {
                    proof {
                        assert(decreases_to!(ov => om));
                    }
                    Json::Object(merge_members_exec(bm, om))
                },
                _ => Json::Object(om),
            }
        },
        other => other,
    }
}

fn merge_members_exec(bm: Vec<(String, Json)>, om: Vec<(String, Json)>) -> (r: Vec<(String, Json)>)
    ensures
        members_view(r@) == merge_members(members_view(bm@), members_view(om@)),
    decreases om, 0nat,
{
    let ghost omg = om;
    let ghost omv = members_view(om@);
    let ghost bmv = members_view(bm@);
    let n = om.len();
    let mut result = bm;
    let mut rest = om;
    let mut k: usize = 0;
    proof {
        lemma_members_view_take(omg@, 0);
        assert(omg@.skip(0) =~= omg@);
        assert(omv.take(0) =~= Seq::<(Seq<char>, JsonV)>::empty());
    }
    while k < n
        invariant
            omg == om,
            n == omg@.len(),
            k <= n,
            omv == members_view(omg@),
            bmv == members_view(bm@),
            rest@ == omg@.skip(k as int),
            members_view(result@) == merge_members(bmv, omv.take(k as int)),
        decreases n - k,
    {
        let (key, v) = rest.remove(0);
        proof {
            assert(omg@.skip(k as int)[0] == omg@[k as int]);
            assert(rest@ =~= omg@.skip(k + 1));
            lemma_members_view_len(omg@);
            assert(omv[k as int] == (key@, json_view(v)));
            assert(omv.take(k + 1).drop_last() =~= omv.take(k as int));
            assert(omv.take(k + 1).last() == omv[k as int]);
            assert(decreases_to!(omg => omg@));
            assert(decreases_to!(omg@ => omg@[k as int]));
            assert(decreases_to!(omg@[k as int] => omg@[k as int].1));
            assert(decreases_to!(om => v));
        }
        let ghost prev = members_view(result@);
        match find_member(&result, key.as_str()) {
            Some(i) => {
                proof {
                    lemma_member_index(prev, key@);
                    lemma_members_view_len(result@);
                }
                let (_, old) = result.remove(i);
                let m = merged(old, v);
                let ghost before = result@;
                result.insert(i, (key, m));
                proof {
                    lemma_members_view_len(result@);
                    lemma_members_view_len(before);
                    assert(members_view(result@) =~= prev.update(i as int, (key@, spec_merge(prev[i as int].1, json_view(v)))));
                }
            },
            None => {
                let ghost before = result@;
                result.push((key, v));
                proof {
                    assert(result@.drop_last() =~= before);
                    assert(members_view(result@) =~= prev.push((key@, json_view(v))));
                }
            },
        }
        k = k + 1;
    }
    proof {
        lemma_members_view_len(omg@);
        assert(omv.take(n as int) =~= omv);
    }
    result
}

/// Lays `overlay` over `base` (see `spec_merge`).
pub fn merge_json(base: &mut Json, overlay: Json)
    ensures
        json_view(*final(base)) == spec_merge(json_view(*old(base)), json_view(overlay)),
{
    let mut b = Json::Null;
    std::mem::swap(&mut b, base);
    *base = merged(b, overlay);
}

impl Json {
    /// The value of the member named `key` of an object; nothing for
    /// anything else.
    pub fn get(&self, key: &str) -> (r: Option<&Json>)
        ensures
            match json_view(*self) {
                JsonV::Object(m) => match member_index(m, key@) {
                    Some(i) => r matches Some(v) && json_view(*v) == m[i].1,
                    None => r is None,
                },
                _ => r is None,
            },
    {
        match self {
            Json::Object(members) => {
                proof {
                    lemma_members_view_len(members@);
                    lemma_member_index(members_view(members@), key@);
                }
                match find_member(members, key) {
                    Some(i) => Some(&members[i].1),
                    None => None,
                }
            },
            _ => None,
        }
    }
}

#[verifier::external_type_specification]
#[verifier::external_body]
pub struct ExJsonValue(serde_json::Value);

/// What `serde_json::from_str::<serde_json::Value>` reads from `text`, as
/// the library's JSON value: `None` when `text` is not JSON.
pub uninterp spec fn parsed_json(text: Seq<char>) -> Option<JsonV>;

/// What `serde_json::from_slice::<serde_json::Value>` reads from `bytes`,
/// as the library's JSON value: `None` when `bytes` are not JSON.
pub uninterp spec fn parsed_json_bytes(bytes: Seq<u8>) -> Option<JsonV>;

/// serde_json's value as the library's, variant for variant; a number
/// keeps the text that `serde_json::Number` displays. Nothing is stated of
/// it: the wrappers that parse name what comes out.
#[verifier::external_body]
fn json_from_value(v: serde_json::Value) -> Json {
    match v {
        serde_json::Value::Null => Json::Null,
        serde_json::Value::Bool(b) => Json::Bool(b),
        serde_json::Value::Number(n) => Json::Number(n.to_string()),
        serde_json::Value::String(s) => Json::Str(s),
        serde_json::Value::Array(a) => Json::Array(a.into_iter().map(json_from_value).collect()),
        serde_json::Value::Object(m) => Json::Object(m.into_iter().map(|(k, v)| (k, json_from_value(v))).collect()),
    }
}

/// `serde_json::from_str::<serde_json::Value>`, its result converted by
/// `json_from_value`. The contract names the result (`parsed_json`): it
/// depends on the text alone.
#[verifier::external_body]
pub(crate) fn parse_json_text(text: &str) -> (r: Option<Json>)
    ensures
        match r {
            Some(j) => parsed_json(text@) == Some(json_view(j)),
            None => parsed_json(text@) is None,
        },
{
    serde_json::from_str::<serde_json::Value>(text).ok().map(json_from_value)
}

/// `serde_json::from_slice::<serde_json::Value>`, its result converted by
/// `json_from_value`. The contract names the result (`parsed_json_bytes`):
/// it depends on the bytes alone.
#[verifier::external_body]
pub(crate) fn parse_json_bytes(bytes: &[u8]) -> (r: Option<Json>)
    ensures
        match r {
            Some(j) => parsed_json_bytes(bytes@) == Some(json_view(j)),
            None => parsed_json_bytes(bytes@) is None,
        },
{
    serde_json::from_slice::<serde_json::Value>(bytes).ok().map(json_from_value)
}

/// Where the settings live: `$XDG_CONFIG_HOME`, else `.config` in the home
/// directory (the root when that is unknown too).
pub open spec fn spec_config_dir(xdg_config_home: Option<Seq<char>>, home: Option<Seq<char>>) -> Seq<char> {
    match xdg_config_home {
        Some(x) => x,
        None => path_join(known_or_root(home), ".config"@),
    }
}

/// Where the settings live (see `spec_config_dir`).
pub fn config_dir(xdg_config_home: Option<String>, home: Option<String>) -> (r: String)
    ensures
        r@ == spec_config_dir(opt_view(xdg_config_home), opt_view(home)),
{
    match xdg_config_home {
        Some(x) => x,
        None => {
            let h = crate::cli::known_dir_or_root(home);
            string_from_chars(&join(&chars_of(h.as_str()), &chars_of(".config")))
        },
    }
}

pub open spec fn spec_default_zed_settings_path(config_dir: Seq<char>) -> Seq<char> {
    path_join(path_join(config_dir, "zed"@), "settings.json"@)
}

/// Where Zed keeps its settings, under the config directory.
pub fn default_zed_settings_path(config_dir: &str) -> (r: String)
    ensures
        r@ == spec_default_zed_settings_path(config_dir@),
{
    let a = join(&chars_of(config_dir), &chars_of("zed"));
    string_from_chars(&join(&a, &chars_of("settings.json")))
}

pub open spec fn spec_zex_config_path(config_dir: Seq<char>) -> Seq<char> {
    path_join(path_join(config_dir, "zex"@), "config.json"@)
}

/// Where the explorer's own settings file is, under the config directory.
pub fn zex_config_path(config_dir: &str) -> (r: String)
    ensures
        r@ == spec_zex_config_path(config_dir@),
{
    let a = join(&chars_of(config_dir), &chars_of("zex"));
    string_from_chars(&join(&a, &chars_of("config.json")))
}

/// `path` with a leading `~` standing for the home directory.
pub fn expand_tilde(path: &str, home: &str) -> (r: String)
    ensures
        r@ == spec_expand_tilde(path@, home@),
{
    crate::cli::expand_tilde(path, home)
}

/// Where the settings to inherit from are: Zed's own settings when
/// `inherit_from_zed` is `true`, the given file (tilde expanded) when it is
/// a string, none otherwise.
pub open spec fn spec_resolve_inherit_path(v: JsonV, config_dir: Seq<char>, home: Seq<char>) -> Option<Seq<char>> {
    match v {
        JsonV::Object(m) => match member_index(m, "inherit_from_zed"@) {
            Some(i) => match m[i].1 {
                JsonV::Bool(true) => Some(spec_default_zed_settings_path(config_dir)),
                JsonV::Str(p) => Some(spec_expand_tilde(p, home)),
                _ => None,
            },
            None => None,
        },
        _ => None,
    }
}

/// Where the settings to inherit from are (see `spec_resolve_inherit_path`).
pub fn resolve_inherit_path(value: &Json, config_dir: &str, home: &str) -> (r: Option<String>)
    ensures
        match r {
            Some(p) => spec_resolve_inherit_path(json_view(*value), config_dir@, home@) == Some(p@),
            None => spec_resolve_inherit_path(json_view(*value), config_dir@, home@) is None,
        },
{
    match value.get("inherit_from_zed") {
        Some(Json::Bool(true)) => Some(default_zed_settings_path(config_dir)),
        Some(Json::Str(p)) => Some(expand_tilde(p.as_str(), home)),
        _ => None,
    }
}

proof fn lemma_index_update(m: Seq<(Seq<char>, JsonV)>, i: int, x: (Seq<char>, JsonV), key: Seq<char>)
    requires
        0 <= i < m.len(),
        x.0 == m[i].0,
    ensures
        member_index(m.update(i, x), key) == member_index(m, key),
    decreases m.len(),
{
    let u = m.update(i, x);
    if i == m.len() - 1 {
        assert(u.drop_last() =~= m.drop_last());
    } else {
        lemma_index_update(m.drop_last(), i, x, key);
        assert(u.drop_last() =~= m.drop_last().update(i, x));
    }
}

proof fn lemma_index_push(m: Seq<(Seq<char>, JsonV)>, x: (Seq<char>, JsonV), key: Seq<char>)
    ensures
        member_index(m.push(x), key) == (match member_index(m, key) {
            Some(i) => Some(i),
            None => if x.0 == key {
                Some(m.len() as int)
            } else {
                None
            },
        }),
{
    assert(m.push(x).drop_last() =~= m);
}

/// The keys of an object's members are distinct.
pub open spec fn distinct_keys(m: Seq<(Seq<char>, JsonV)>) -> bool {
    forall|i: int, j: int| 0 <= i < j < m.len() ==> m[i].0 != m[j].0
}

/// A member of the base that the overlay does not name keeps its value.
pub proof fn lemma_merge_keeps_base_members(
    bm: Seq<(Seq<char>, JsonV)>,
    om: Seq<(Seq<char>, JsonV)>,
    key: Seq<char>,
)
    requires
        forall|j: int| 0 <= j < om.len() ==> om[j].0 != key,
    ensures
        member_index(merge_members(bm, om), key) == member_index(bm, key),
        member_index(bm, key) matches Some(i) ==> merge_members(bm, om)[i] == bm[i],
    decreases om.len(),
{
    if om.len() > 0 {
        let prev = merge_members(bm, om.drop_last());
        lemma_merge_keeps_base_members(bm, om.drop_last(), key);
        let (k, v) = om.last();
        lemma_member_index(prev, k);
        match member_index(prev, k) {
            Some(i) => {
                lemma_index_update(prev, i, (k, spec_merge(prev[i].1, v)), key);
                lemma_member_index(prev, key);
            },
            None => {
                lemma_index_push(prev, (k, v), key);
                lemma_member_index(prev, key);
            },
        }
    }
}

/// A member of the overlay that is not an object replaces the base's
/// member of that name, or is added.
pub proof fn lemma_merge_overlay_wins(
    bm: Seq<(Seq<char>, JsonV)>,
    om: Seq<(Seq<char>, JsonV)>,
    j: int,
)
    requires
        distinct_keys(om),
        0 <= j < om.len(),
        !(om[j].1 is Object),
    ensures
        member_index(merge_members(bm, om), om[j].0) matches Some(i) && merge_members(bm, om)[i]
            == om[j],
    decreases om.len(),
{
    let key = om[j].0;
    let prev = merge_members(bm, om.drop_last());
    let (k, v) = om.last();
    lemma_member_index(prev, k);
    if j == om.len() - 1 {
        assert forall|t: int| 0 <= t < om.drop_last().len() implies om.drop_last()[t].0 != key by {
            assert(om.drop_last()[t] == om[t]);
        }
        assert(om.last() == om[j]);
        assert(spec_merge(JsonV::Null, v) == v);
        match member_index(prev, k) {
            Some(i) => {
                assert(spec_merge(prev[i].1, v) == v);
                assert(merge_members(bm, om) == prev.update(i, (k, v)));
                lemma_index_update(prev, i, (k, spec_merge(prev[i].1, v)), key);
            },
            None => {
                assert(merge_members(bm, om) == prev.push((k, v)));
                lemma_index_push(prev, (k, v), key);
            },
        }
    } else {
        assert(distinct_keys(om.drop_last())) by {
            assert forall|a: int, b: int| 0 <= a < b < om.drop_last().len() implies om.drop_last()[a].0
                != om.drop_last()[b].0 by {
                assert(om.drop_last()[a] == om[a]);
                assert(om.drop_last()[b] == om[b]);
            }
        }
        assert(om.drop_last()[j] == om[j]);
        lemma_merge_overlay_wins(bm, om.drop_last(), j);
        assert(k != key);
        let i0 = member_index(prev, key)->0;
        lemma_member_index(prev, key);
        assert(prev[i0] == om[j]);
        match member_index(prev, k) {
            Some(i) => {
                let r = prev.update(i, (k, spec_merge(prev[i].1, v)));
                assert(merge_members(bm, om) == r);
                lemma_index_update(prev, i, (k, spec_merge(prev[i].1, v)), key);
                assert(i != i0);
                assert(r[i0] == prev[i0]);
            },
            None => {
                let r = prev.push((k, v));
                assert(merge_members(bm, om) == r);
                lemma_index_push(prev, (k, v), key);
                assert(r[i0] == prev[i0]);
            },
        }
    }
}

/// An overlay that is not an object replaces the base whole.
pub proof fn lemma_merge_non_object_replaces(base: JsonV, overlay: JsonV)
    requires
        !(overlay is Object),
    ensures
        spec_merge(base, overlay) == overlay,
{
}

} // verus!
