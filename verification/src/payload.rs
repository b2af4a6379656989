//! JSON replies of mirror and Modrinth services as the library reads them: values held
//! as plain data, key paths into them, and the fields a custom mirror configures.

use vstd::prelude::*;
use crate::error::{CoreError, CoreErrorView};
use crate::mirror::{unique_seq, unique_strings, FastMirrorCoreSummary};
use crate::model::strings_view;
use crate::numbers::{parse_usize, usize_of};
use crate::text::{owned, split_char, split_seq, str_eq, trim, trim_seq};

verus! {

// ---------------------------------------------------------------------------
// Values
// ---------------------------------------------------------------------------

/// A JSON number: the text it displays as, and its value when it is an integer that
/// fits in an `i64`.
pub struct JsonNumber {
    pub text: String,
    pub integer: Option<i64>,
}

/// A JSON value. An object keeps its members in order; its keys are distinct.
pub enum JsonValue {
    Null,
    Bool(bool),
    Number(JsonNumber),
    Text(String),
    Array(Vec<JsonValue>),
    Object(Vec<(String, JsonValue)>),
}

/// The value of the member `key` of an object with `members`.
pub open spec fn member_of(members: Seq<(String, JsonValue)>, key: Seq<char>) -> Option<JsonValue>
    decreases members.len(),
{
    if members.len() == 0 {
        None
    } else if members[0].0@ == key {
        Some(members[0].1)
    } else {
        member_of(members.drop_first(), key)
    }
}

/// The member `key` of `v` when `v` is an object (`Value::get` with a key).
pub open spec fn get_key(v: JsonValue, key: Seq<char>) -> Option<JsonValue> {
    match v {
        JsonValue::Object(members) => member_of(members@, key),
        _ => None,
    }
}

/// One step of a key path: an index into an array when the part reads as a `usize`,
/// otherwise a key of an object.
pub open spec fn path_step(v: JsonValue, part: Seq<char>) -> Option<JsonValue> {
    match usize_of(part) {
        Some(i) => match v {
            JsonValue::Array(items) => if i < items@.len() {
                Some(items@[i])
            } else {
                None
            },
            _ => None,
        },
        None => get_key(v, part),
    }
}

/// The value reached from `v` by the steps `parts`.
pub open spec fn resolve_parts(v: JsonValue, parts: Seq<Seq<char>>) -> Option<JsonValue>
    decreases parts.len(),
{
    if parts.len() == 0 {
        Some(v)
    } else {
        match path_step(v, parts[0]) {
            Some(next) => resolve_parts(next, parts.drop_first()),
            None => None,
        }
    }
}

/// The value at the dotted `key_path` in `root`; a blank path is the root itself.
pub open spec fn resolve_path(root: JsonValue, key_path: Seq<char>) -> Option<JsonValue> {
    if trim_seq(key_path).len() == 0 {
        Some(root)
    } else {
        resolve_parts(root, split_seq(key_path, '.'))
    }
}

/// The value a found reference points to.
pub open spec fn found(r: Option<&JsonValue>) -> Option<JsonValue> {
    match r {
        Some(v) => Some(*v),
        None => None,
    }
}

/// The member `key` of an object with `members`.
pub fn member<'a>(members: &'a Vec<(String, JsonValue)>, key: &str) -> (r: Option<&'a JsonValue>)
    ensures
        found(r) == member_of(members@, key@),
{
    let mut i: usize = 0;
    assert(members@.skip(0) =~= members@);
    while i < members.len()
        invariant
            i <= members@.len(),
            member_of(members@, key@) == member_of(members@.skip(i as int), key@),
        decreases members@.len() - i,
    {
        assert(members@.skip(i as int).drop_first() =~= members@.skip(i as int + 1));
        if str_eq(members[i].0.as_str(), key) {
            return Some(&members[i].1);
        }
        i = i + 1;
    }
    None
}

/// The member `key` of `v`, when `v` is an object that has one.
pub fn get<'a>(v: &'a JsonValue, key: &str) -> (r: Option<&'a JsonValue>)
    ensures
        found(r) == get_key(*v, key@),
{
    match v {
        JsonValue::Object(members) => member(members, key),
        _ => None,
    }
}

/// One step of a key path from `v`.
fn step<'a>(v: &'a JsonValue, part: &str) -> (r: Option<&'a JsonValue>)
    ensures
        found(r) == path_step(*v, part@),
{
    match parse_usize(part) {
        Ok(i) => match v {
            JsonValue::Array(items) => if i < items.len() {
                Some(&items[i])
            } else {
                None
            },
            _ => None,
        },
        Err(_) => get(v, part),
    }
}

/// The value at the dotted `key_path` in `root` (a blank path gives `root`).
pub fn custom_resolve_value<'a>(root: &'a JsonValue, key_path: &str) -> (r: Option<&'a JsonValue>)
    ensures
        found(r) == resolve_path(*root, key_path@),
{
    let t = trim(key_path);
    if t.as_str().is_empty() {
        return Some(root);
    }
    let parts = split_char(key_path, '.');
    let ghost ps = split_seq(key_path@, '.');
    assert(strings_view(parts@) =~= ps);
    assert(resolve_path(*root, key_path@) == resolve_parts(*root, ps));
    let mut current: &JsonValue = root;
    let mut i: usize = 0;
    assert(ps.skip(0) =~= ps);
    while i < parts.len()
        invariant
            i <= parts@.len(),
            parts@.len() == ps.len(),
            forall|k: int| 0 <= k < parts@.len() ==> #[trigger] parts@[k]@ == ps[k],
            resolve_parts(*root, ps) == resolve_parts(*current, ps.skip(i as int)),
            resolve_path(*root, key_path@) == resolve_parts(*root, ps),
        decreases parts@.len() - i,
    {
        assert(ps.skip(i as int).drop_first() =~= ps.skip(i as int + 1));
        assert(ps.skip(i as int)[0] == parts@[i as int]@);
        match step(current, parts[i].as_str()) {
            Some(next) => {
                current = next;
            },
            None => {
                assert(resolve_parts(*current, ps.skip(i as int)) == None::<JsonValue>);
                return None;
            },
        }
        i = i + 1;
    }
    assert(ps.skip(i as int).len() == 0);
    Some(current)
}

/// The payload a custom mirror's fields are read from: its `data` member when the
/// mirror wraps replies and there is one, otherwise the reply itself.
pub open spec fn custom_root_of(payload: JsonValue, unwrap_data: bool) -> JsonValue {
    if unwrap_data {
        match get_key(payload, "data"@) {
            Some(d) => d,
            None => payload,
        }
    } else {
        payload
    }
}

/// The part of a reply a custom mirror's fields are read from.
pub fn custom_root<'a>(payload: &'a JsonValue, unwrap_data: bool) -> (r: &'a JsonValue)
    ensures
        *r == custom_root_of(*payload, unwrap_data),
{
    if unwrap_data {
        match get(payload, "data") {
            Some(d) => d,
            None => payload,
        }
    } else {
        payload
    }
}

// ---------------------------------------------------------------------------
// Fields of a custom mirror's objects
// ---------------------------------------------------------------------------

/// A member read as text: a string as it is, a number or a boolean as it displays,
/// anything else (or nothing) as empty text.
pub open spec fn text_of_member(m: Option<JsonValue>) -> Seq<char> {
    match m {
        Some(JsonValue::Text(s)) => s@,
        Some(JsonValue::Number(n)) => n.text@,
        Some(JsonValue::Bool(b)) => if b {
            "true"@
        } else {
            "false"@
        },
        _ => Seq::empty(),
    }
}

/// The member `key` of an object read as text.
pub fn custom_string(members: &Vec<(String, JsonValue)>, key: &str) -> (r: String)
    ensures
        r@ == text_of_member(member_of(members@, key@)),
{
    match member(members, key) {
        Some(JsonValue::Text(s)) => owned(s.as_str()),
        Some(JsonValue::Number(n)) => owned(n.text.as_str()),
        Some(JsonValue::Bool(b)) => if *b {
            owned("true")
        } else {
            owned("false")
        },
        _ => String::new(),
    }
}

/// A member read as a flag: a boolean as it is, an integer as non-zero (a number that
/// is no `i64` as zero), the texts `true`, `1` and `yes` as set; otherwise unset.
pub open spec fn flag_of_member(m: Option<JsonValue>) -> bool {
    match m {
        Some(JsonValue::Bool(b)) => b,
        Some(JsonValue::Number(n)) => match n.integer {
            Some(i) => i != 0,
            None => false,
        },
        Some(JsonValue::Text(s)) => s@ == "true"@ || s@ == "1"@ || s@ == "yes"@,
        _ => false,
    }
}

/// The member `key` of an object read as a flag.
pub fn custom_bool(members: &Vec<(String, JsonValue)>, key: &str) -> (r: bool)
    ensures
        r == flag_of_member(member_of(members@, key@)),
{
    match member(members, key) {
        Some(JsonValue::Bool(b)) => *b,
        Some(JsonValue::Number(n)) => match n.integer {
            Some(i) => i != 0,
            None => false,
        },
        Some(JsonValue::Text(s)) => str_eq(s.as_str(), "true") || str_eq(s.as_str(), "1") || str_eq(
            s.as_str(),
            "yes",
        ),
        _ => false,
    }
}

/// The text of an array item that is a string or a number.
pub open spec fn item_text(v: JsonValue) -> Option<Seq<char>> {
    match v {
        JsonValue::Text(s) => Some(s@),
        JsonValue::Number(n) => Some(n.text@),
        _ => None,
    }
}

/// The texts of the items that are strings or numbers, in order.
pub open spec fn item_texts(items: Seq<JsonValue>) -> Seq<Seq<char>>
    decreases items.len(),
{
    if items.len() == 0 {
        Seq::empty()
    } else {
        let rest = item_texts(items.drop_last());
        match item_text(items.last()) {
            Some(t) => rest.push(t),
            None => rest,
        }
    }
}

/// The texts of an array of version names; refused when the value is no array.
pub open spec fn spec_string_array(v: JsonValue) -> Result<Seq<Seq<char>>, CoreErrorView> {
    match v {
        JsonValue::Array(items) => Ok(item_texts(items@)),
        _ => Err(CoreErrorView::Runtime("custom mirror versions payload is not an array"@)),
    }
}

/// The strings and numbers of an array, as text.
pub fn custom_string_array(value: &JsonValue) -> (r: Result<Vec<String>, CoreError>)
    ensures
        match r {
            Ok(v) => spec_string_array(*value) == Ok::<Seq<Seq<char>>, CoreErrorView>(strings_view(v@)),
            Err(e) => spec_string_array(*value) == Err::<Seq<Seq<char>>, CoreErrorView>(e@),
        },
{
    let items = match value {
        JsonValue::Array(items) => items,
        _ => return Err(CoreError::runtime("custom mirror versions payload is not an array")),
    };
    let mut out: Vec<String> = Vec::new();
    let mut i: usize = 0;
    while i < items.len()
        invariant
            i <= items@.len(),
            strings_view(out@) == item_texts(items@.take(i as int)),
        decreases items@.len() - i,
    {
        assert(items@.take(i as int + 1).drop_last() =~= items@.take(i as int));
        match &items[i] {
            JsonValue::Text(s) => out.push(owned(s.as_str())),
            JsonValue::Number(n) => out.push(owned(n.text.as_str())),
            _ => {},
        }
        i = i + 1;
        assert(strings_view(out@) =~= item_texts(items@.take(i as int)));
    }
    assert(items@.take(i as int) =~= items@);
    Ok(out)
}

/// The game versions a custom mirror lists for a core, found at `versions_key_path`
/// in its reply: refused when the path finds nothing, or something other than an array.
pub open spec fn spec_custom_game_versions(root: JsonValue, versions_key_path: Seq<char>) -> Result<Seq<Seq<char>>, CoreErrorView> {
    match resolve_path(root, versions_key_path) {
        None => Err(CoreErrorView::Runtime("custom mirror versions payload is missing"@)),
        Some(v) => spec_string_array(v),
    }
}

/// The game versions a custom mirror lists for a core.
pub fn custom_game_versions(root: &JsonValue, versions_key_path: &str) -> (r: Result<Vec<String>, CoreError>)
    ensures
        match r {
            Ok(v) => spec_custom_game_versions(*root, versions_key_path@) == Ok::<Seq<Seq<char>>, CoreErrorView>(strings_view(v@)),
            Err(e) => spec_custom_game_versions(*root, versions_key_path@) == Err::<Seq<Seq<char>>, CoreErrorView>(e@),
        },
{
    match custom_resolve_value(root, versions_key_path) {
        None => Err(CoreError::runtime("custom mirror versions payload is missing")),
        Some(v) => custom_string_array(v),
    }
}

/// What a custom mirror's core object lists: its name (the item is skipped when that is
/// empty or the item is no object), its tag when not empty, and its recommendation.
pub open spec fn core_entry(item: JsonValue, name_key: Seq<char>, tag_key: Seq<char>, recommend_key: Seq<char>) -> Option<(Seq<char>, Option<Seq<char>>, bool)> {
    match item {
        JsonValue::Object(m) => {
            let name = text_of_member(member_of(m@, name_key));
            if name.len() == 0 {
                None
            } else {
                let tag = text_of_member(member_of(m@, tag_key));
                Some((name, if tag.len() == 0 { None } else { Some(tag) }, flag_of_member(member_of(m@, recommend_key))))
            }
        },
        _ => None,
    }
}

/// The cores listed by the items, in order.
pub open spec fn core_entries(items: Seq<JsonValue>, name_key: Seq<char>, tag_key: Seq<char>, recommend_key: Seq<char>) -> Seq<(Seq<char>, Option<Seq<char>>, bool)>
    decreases items.len(),
{
    if items.len() == 0 {
        Seq::empty()
    } else {
        let rest = core_entries(items.drop_last(), name_key, tag_key, recommend_key);
        match core_entry(items.last(), name_key, tag_key, recommend_key) {
            Some(e) => rest.push(e),
            None => rest,
        }
    }
}

/// A core summary as name, tag and recommendation.
pub open spec fn summary_entry(c: FastMirrorCoreSummary) -> (Seq<char>, Option<Seq<char>>, bool) {
    (c.name@, match c.tag { Some(t) => Some(t@), None => None }, c.recommend)
}

/// The list a custom mirror's cores are read from: what `cores_key_path` finds in the
/// reply, or the reply itself.
pub open spec fn cores_value(root: JsonValue, cores_key_path: Seq<char>) -> JsonValue {
    match resolve_path(root, cores_key_path) {
        Some(c) => c,
        None => root,
    }
}

/// The cores a custom mirror lists, with the configured keys of name, tag and
/// recommendation; refused when the list is no array. Summaries carry no homepage and
/// no game versions.
pub fn custom_cores(
    root: &JsonValue,
    cores_key_path: &str,
    name_key: &str,
    tag_key: &str,
    recommend_key: &str,
) -> (r: Result<Vec<FastMirrorCoreSummary>, CoreError>)
    ensures
        match r {
            Ok(v) => cores_value(*root, cores_key_path@) is Array
                && v@.map_values(|c: FastMirrorCoreSummary| summary_entry(c)) == core_entries(
                    cores_value(*root, cores_key_path@)->Array_0@,
                    name_key@,
                    tag_key@,
                    recommend_key@,
                )
                && forall|k: int| 0 <= k < v@.len() ==> v@[k].homepage is None && v@[k].mc_versions is None,
            Err(e) => !(cores_value(*root, cores_key_path@) is Array)
                && e@ == CoreErrorView::Runtime("custom mirror cores payload is not an array"@),
        },
{
    let cores = match custom_resolve_value(root, cores_key_path) {
        Some(c) => c,
        None => root,
    };
    let items = match cores {
        JsonValue::Array(items) => items,
        _ => return Err(CoreError::runtime("custom mirror cores payload is not an array")),
    };
    let mut out: Vec<FastMirrorCoreSummary> = Vec::new();
    let mut i: usize = 0;
    while i < items.len()
        invariant
            i <= items@.len(),
            out@.map_values(|c: FastMirrorCoreSummary| summary_entry(c)) == core_entries(
                items@.take(i as int),
                name_key@,
                tag_key@,
                recommend_key@,
            ),
            forall|k: int| 0 <= k < out@.len() ==> out@[k].homepage is None && out@[k].mc_versions is None,
        decreases items@.len() - i,
    {
        assert(items@.take(i as int + 1).drop_last() =~= items@.take(i as int));
        if let JsonValue::Object(m) = &items[i] {
            let name = custom_string(m, name_key);
            if !name.as_str().is_empty() {
                let tag = custom_string(m, tag_key);
                let recommend = custom_bool(m, recommend_key);
                let tag_opt = if tag.as_str().is_empty() {
                    None
                } else {
                    Some(tag)
                };
                out.push(FastMirrorCoreSummary { name, tag: tag_opt, recommend, homepage: None, mc_versions: None });
            }
        }
        i = i + 1;
        assert(out@.map_values(|c: FastMirrorCoreSummary| summary_entry(c)) =~= core_entries(
            items@.take(i as int),
            name_key@,
            tag_key@,
            recommend_key@,
        ));
    }
    assert(items@.take(i as int) =~= items@);
    Ok(out)
}

/// The build versions read from the objects among the items under `key`, empty ones
/// left out, in order.
pub open spec fn build_versions(items: Seq<JsonValue>, key: Seq<char>) -> Seq<Seq<char>>
    decreases items.len(),
{
    if items.len() == 0 {
        Seq::empty()
    } else {
        let rest = build_versions(items.drop_last(), key);
        match items.last() {
            JsonValue::Object(m) => {
                let t = text_of_member(member_of(m@, key));
                if t.len() == 0 {
                    rest
                } else {
                    rest.push(t)
                }
            },
            _ => rest,
        }
    }
}

/// The core versions a custom mirror lists for a game version: the builds found at
/// `builds_key_path`, their versions without repetition; refused when nothing is
/// found there, or something other than an array.
pub open spec fn spec_custom_core_versions(root: JsonValue, builds_key_path: Seq<char>, version_key: Seq<char>) -> Result<Seq<Seq<char>>, CoreErrorView> {
    match resolve_path(root, builds_key_path) {
        None => Err(CoreErrorView::Runtime("custom mirror builds payload is missing"@)),
        Some(JsonValue::Array(items)) => Ok(unique_seq(build_versions(items@, version_key))),
        Some(_) => Err(CoreErrorView::Runtime("custom mirror builds payload is not an array"@)),
    }
}

/// The core versions a custom mirror lists for a game version.
pub fn custom_core_versions(root: &JsonValue, builds_key_path: &str, version_key: &str) -> (r: Result<Vec<String>, CoreError>)
    ensures
        match r {
            Ok(v) => spec_custom_core_versions(*root, builds_key_path@, version_key@) == Ok::<Seq<Seq<char>>, CoreErrorView>(strings_view(v@)),
            Err(e) => spec_custom_core_versions(*root, builds_key_path@, version_key@) == Err::<Seq<Seq<char>>, CoreErrorView>(e@),
        },
{
    let builds = match custom_resolve_value(root, builds_key_path) {
        None => return Err(CoreError::runtime("custom mirror builds payload is missing")),
        Some(b) => b,
    };
    let items = match builds {
        JsonValue::Array(items) => items,
        _ => return Err(CoreError::runtime("custom mirror builds payload is not an array")),
    };
    let mut versions: Vec<String> = Vec::new();
    let mut i: usize = 0;
    while i < items.len()
        invariant
            i <= items@.len(),
            strings_view(versions@) == build_versions(items@.take(i as int), version_key@),
        decreases items@.len() - i,
    {
        assert(items@.take(i as int + 1).drop_last() =~= items@.take(i as int));
        if let JsonValue::Object(m) = &items[i] {
            let t = custom_string(m, version_key);
            if !t.as_str().is_empty() {
                versions.push(t);
            }
        }
        i = i + 1;
        assert(strings_view(versions@) =~= build_versions(items@.take(i as int), version_key@));
    }
    assert(items@.take(i as int) =~= items@);
    Ok(unique_strings(versions))
}

/// Where to download one build of a custom mirror's core.
pub struct MirrorBuildDetail {
    pub download_url: String,
    pub sha1: Option<String>,
    pub filename: String,
}

/// A build detail as address, checksum and file name.
pub open spec fn detail_entry(d: MirrorBuildDetail) -> (Seq<char>, Option<Seq<char>>, Seq<char>) {
    (d.download_url@, match d.sha1 { Some(t) => Some(t@), None => None }, d.filename@)
}

/// A custom mirror's build detail, read with the configured keys: refused when the
/// reply is no object, or lacks the address or the file name; an empty checksum is
/// none.
pub open spec fn spec_custom_detail(root: JsonValue, url_key: Seq<char>, file_key: Seq<char>, sha1_key: Seq<char>) -> Result<(Seq<char>, Option<Seq<char>>, Seq<char>), CoreErrorView> {
    match root {
        JsonValue::Object(m) => {
            let url = text_of_member(member_of(m@, url_key));
            let file = text_of_member(member_of(m@, file_key));
            let sha1 = text_of_member(member_of(m@, sha1_key));
            if url.len() == 0 || file.len() == 0 {
                Err(CoreErrorView::Runtime("custom mirror detail payload is missing download url or filename"@))
            } else {
                Ok((url, if sha1.len() == 0 { None } else { Some(sha1) }, file))
            }
        },
        _ => Err(CoreErrorView::Runtime("custom mirror detail payload is not an object"@)),
    }
}

/// The download of one build of a custom mirror's core.
pub fn custom_detail(root: &JsonValue, url_key: &str, file_key: &str, sha1_key: &str) -> (r: Result<MirrorBuildDetail, CoreError>)
    ensures
        match r {
            Ok(d) => spec_custom_detail(*root, url_key@, file_key@, sha1_key@) == Ok::<(Seq<char>, Option<Seq<char>>, Seq<char>), CoreErrorView>(detail_entry(d)),
            Err(e) => spec_custom_detail(*root, url_key@, file_key@, sha1_key@) == Err::<(Seq<char>, Option<Seq<char>>, Seq<char>), CoreErrorView>(e@),
        },
{
    let m = match root {
        JsonValue::Object(m) => m,
        _ => return Err(CoreError::runtime("custom mirror detail payload is not an object")),
    };
    let download_url = custom_string(m, url_key);
    let filename = custom_string(m, file_key);
    if download_url.as_str().is_empty() || filename.as_str().is_empty() {
        return Err(CoreError::runtime("custom mirror detail payload is missing download url or filename"));
    }
    let sha1 = custom_string(m, sha1_key);
    let sha1_opt = if sha1.as_str().is_empty() {
        None
    } else {
        Some(sha1)
    };
    Ok(MirrorBuildDetail { download_url, sha1: sha1_opt, filename })
}

// ---------------------------------------------------------------------------
// Modrinth replies
// ---------------------------------------------------------------------------

/// Whether a member of `v` is the text `expected`.
pub open spec fn member_is_text(v: JsonValue, key: Seq<char>, expected: Seq<char>) -> bool {
    match get_key(v, key) {
        Some(JsonValue::Text(s)) => s@ == expected,
        _ => false,
    }
}

/// The positions of the items that are release game versions
/// (`version_type` is `release`).
pub open spec fn release_positions(items: Seq<JsonValue>) -> Seq<int>
    decreases items.len(),
{
    if items.len() == 0 {
        Seq::empty()
    } else {
        let rest = release_positions(items.drop_last());
        if member_is_text(items.last(), "version_type"@, "release"@) {
            rest.push(items.len() - 1)
        } else {
            rest
        }
    }
}

/// The items a game-version list keeps when snapshots are left out: those of the
/// array whose `version_type` is `release` (none when the reply is no array).
pub open spec fn spec_release_positions(payload: JsonValue) -> Seq<int> {
    match payload {
        JsonValue::Array(items) => release_positions(items@),
        _ => Seq::empty(),
    }
}

/// Whether `v` is the text `expected` under `key`.
fn member_text_is(v: &JsonValue, key: &str, expected: &str) -> (r: bool)
    ensures
        r == member_is_text(*v, key@, expected@),
{
    match get(v, key) {
        Some(JsonValue::Text(s)) => str_eq(s.as_str(), expected),
        _ => false,
    }
}

/// The positions, in order, of the release versions in Modrinth's game-version list.
pub fn release_version_positions(payload: &JsonValue) -> (r: Vec<usize>)
    ensures
        r@.map_values(|k: usize| k as int) == spec_release_positions(*payload),
{
    let items = match payload {
        JsonValue::Array(items) => items,
        _ => {
            let empty: Vec<usize> = Vec::new();
            assert(empty@.map_values(|k: usize| k as int) =~= Seq::<int>::empty());
            return empty;
        },
    };
    let mut out: Vec<usize> = Vec::new();
    let mut i: usize = 0;
    while i < items.len()
        invariant
            i <= items@.len(),
            out@.map_values(|k: usize| k as int) == release_positions(items@.take(i as int)),
        decreases items@.len() - i,
    {
        assert(items@.take(i as int + 1).drop_last() =~= items@.take(i as int));
        if member_text_is(&items[i], "version_type", "release") {
            out.push(i);
        }
        i = i + 1;
        assert(out@.map_values(|k: usize| k as int) =~= release_positions(items@.take(i as int)));
    }
    assert(items@.take(i as int) =~= items@);
    out
}

/// The strings among the items, in order.
pub open spec fn string_items(items: Seq<JsonValue>) -> Seq<Seq<char>>
    decreases items.len(),
{
    if items.len() == 0 {
        Seq::empty()
    } else {
        let rest = string_items(items.drop_last());
        match items.last() {
            JsonValue::Text(t) => rest.push(t@),
            _ => rest,
        }
    }
}

/// The strings of the array under `key` of `v` (none when it is no array).
pub open spec fn string_member(v: JsonValue, key: Seq<char>) -> Seq<Seq<char>> {
    match get_key(v, key) {
        Some(JsonValue::Array(items)) => string_items(items@),
        _ => Seq::empty(),
    }
}

/// The strings of the array under `key` of `v`.
pub fn string_list(v: &JsonValue, key: &str) -> (r: Vec<String>)
    ensures
        strings_view(r@) == string_member(*v, key@),
{
    let mut out: Vec<String> = Vec::new();
    let items = match get(v, key) {
        Some(JsonValue::Array(items)) => items,
        _ => {
            assert(strings_view(out@) =~= Seq::<Seq<char>>::empty());
            return out;
        },
    };
    let mut i: usize = 0;
    while i < items.len()
        invariant
            i <= items@.len(),
            strings_view(out@) == string_items(items@.take(i as int)),
        decreases items@.len() - i,
    {
        assert(items@.take(i as int + 1).drop_last() =~= items@.take(i as int));
        if let JsonValue::Text(t) = &items[i] {
            out.push(owned(t.as_str()));
        }
        i = i + 1;
        assert(strings_view(out@) =~= string_items(items@.take(i as int)));
    }
    assert(items@.take(i as int) =~= items@);
    out
}

/// Whether a Modrinth version object suits the selected game versions and loaders for
/// a project of type `project_type`, judged by its `game_versions` and `loaders`.
pub fn modrinth_json_version_matches(
    version: &JsonValue,
    selected_versions: &Vec<String>,
    selected_loaders: &Vec<String>,
    project_type: &str,
) -> (r: bool)
    ensures
        r == crate::web::version_matches_seq(
            string_member(*version, "game_versions"@),
            string_member(*version, "loaders"@),
            strings_view(selected_versions@),
            strings_view(selected_loaders@),
            project_type@,
        ),
{
    let game_versions = string_list(version, "game_versions");
    let loaders = string_list(version, "loaders");
    crate::web::modrinth_version_matches(&game_versions, &loaders, selected_versions, selected_loaders, project_type)
}

/// A required dependency of a version: its project, and the exact version when one is
/// named.
pub struct DependencyRef {
    pub project_id: String,
    pub version_id: Option<String>,
}

/// A dependency as project and optional version.
pub open spec fn dependency_entry(d: DependencyRef) -> (Seq<char>, Option<Seq<char>>) {
    (d.project_id@, match d.version_id { Some(t) => Some(t@), None => None })
}

/// The dependency an item stands for: one whose `dependency_type` is `required` and
/// whose `project_id` is text, with its `version_id` when that is text.
pub open spec fn required_entry(item: JsonValue) -> Option<(Seq<char>, Option<Seq<char>>)> {
    if !member_is_text(item, "dependency_type"@, "required"@) {
        None
    } else {
        match get_key(item, "project_id"@) {
            Some(JsonValue::Text(p)) => Some((p@, match get_key(item, "version_id"@) {
                Some(JsonValue::Text(v)) => Some(v@),
                _ => None,
            })),
            _ => None,
        }
    }
}

/// The required dependencies among the items, in order.
pub open spec fn required_entries(items: Seq<JsonValue>) -> Seq<(Seq<char>, Option<Seq<char>>)>
    decreases items.len(),
{
    if items.len() == 0 {
        Seq::empty()
    } else {
        let rest = required_entries(items.drop_last());
        match required_entry(items.last()) {
            Some(e) => rest.push(e),
            None => rest,
        }
    }
}

/// The required dependencies a Modrinth version lists under `dependencies` (none when
/// that is no array).
pub open spec fn spec_required_dependencies(version: JsonValue) -> Seq<(Seq<char>, Option<Seq<char>>)> {
    match get_key(version, "dependencies"@) {
        Some(JsonValue::Array(items)) => required_entries(items@),
        _ => Seq::empty(),
    }
}

/// The required dependencies of a Modrinth version, in the order it lists them.
pub fn required_dependencies(version: &JsonValue) -> (r: Vec<DependencyRef>)
    ensures
        r@.map_values(|d: DependencyRef| dependency_entry(d)) == spec_required_dependencies(*version),
{
    let mut out: Vec<DependencyRef> = Vec::new();
    let items = match get(version, "dependencies") {
        Some(JsonValue::Array(items)) => items,
        _ => {
            assert(out@.map_values(|d: DependencyRef| dependency_entry(d)) =~= Seq::<(Seq<char>, Option<Seq<char>>)>::empty());
            return out;
        },
    };
    let mut i: usize = 0;
    while i < items.len()
        invariant
            i <= items@.len(),
            out@.map_values(|d: DependencyRef| dependency_entry(d)) == required_entries(items@.take(i as int)),
        decreases items@.len() - i,
    {
        assert(items@.take(i as int + 1).drop_last() =~= items@.take(i as int));
        let item = &items[i];
        if member_text_is(item, "dependency_type", "required") {
            if let Some(JsonValue::Text(p)) = get(item, "project_id") {
                let version_id = match get(item, "version_id") {
                    Some(JsonValue::Text(v)) => Some(owned(v.as_str())),
                    _ => None,
                };
                out.push(DependencyRef { project_id: owned(p.as_str()), version_id });
            }
        }
        i = i + 1;
        assert(out@.map_values(|d: DependencyRef| dependency_entry(d)) =~= required_entries(items@.take(i as int)));
    }
    assert(items@.take(i as int) =~= items@);
    out
}

// ---------------------------------------------------------------------------
// JSON text read with serde_json
// ---------------------------------------------------------------------------

/// The map of strings that `serde_json` reads from `text`, its entries in key order;
/// none when `text` is not a JSON object whose values are all strings.
pub uninterp spec fn json_string_map(text: Seq<char>) -> Option<Seq<(Seq<char>, Seq<char>)>>;

/// The message of `serde_json`'s error for `text` read as a map of strings.
pub uninterp spec fn json_string_map_error(text: Seq<char>) -> Seq<char>;

/// `serde_json::from_str` into a `BTreeMap<String, String>`, its entries then listed in
/// key order. The contract claims only that the entries, or the error's message, are
/// the named functions of the text.
#[verifier::external_body]
fn json_string_map_of(text: &str) -> (r: Result<Vec<(String, String)>, String>)
    ensures
        match r {
            Ok(v) => json_string_map(text@) == Some(crate::game::pairs_view(v@)),
            Err(m) => json_string_map(text@) is None && m@ == json_string_map_error(text@),
        },
{
    serde_json::from_str::<std::collections::BTreeMap<String, String>>(text)
        .map(|m| m.into_iter().collect())
        .map_err(|e| e.to_string())
}

/// The request headers given as JSON text: none when the text is absent or blank, else
/// the map the text holds, else a refusal with the reader's message.
pub open spec fn headers_json_seq(headers_json: Option<Seq<char>>) -> Result<Seq<(Seq<char>, Seq<char>)>, CoreErrorView> {
    match headers_json {
        None => Ok(Seq::empty()),
        Some(t) => if trim_seq(t).len() == 0 {
            Ok(Seq::empty())
        } else {
            match json_string_map(t) {
                Some(m) => Ok(m),
                None => Err(CoreErrorView::Validation("invalid headers json: "@ + json_string_map_error(t))),
            }
        },
    }
}

/// The request headers given as JSON text, as name and value pairs in name order.
pub fn parse_headers_json(headers_json: Option<&str>) -> (r: Result<Vec<(String, String)>, CoreError>)
    ensures
        match r {
            Ok(v) => headers_json_seq(crate::game::opt_str_view(headers_json)) == Ok::<
                Seq<(Seq<char>, Seq<char>)>,
                CoreErrorView,
            >(crate::game::pairs_view(v@)),
            Err(e) => headers_json_seq(crate::game::opt_str_view(headers_json)) == Err::<
                Seq<(Seq<char>, Seq<char>)>,
                CoreErrorView,
            >(e@),
        },
{
    let text = match headers_json {
        None => {
            let v: Vec<(String, String)> = Vec::new();
            assert(crate::game::pairs_view(v@) =~= Seq::<(Seq<char>, Seq<char>)>::empty());
            return Ok(v);
        },
        Some(t) => t,
    };
    if crate::text::is_blank(text) {
        let v: Vec<(String, String)> = Vec::new();
        assert(crate::game::pairs_view(v@) =~= Seq::<(Seq<char>, Seq<char>)>::empty());
        return Ok(v);
    }
    match json_string_map_of(text) {
        Ok(v) => Ok(v),
        Err(m) => Err(CoreError::Validation(crate::text::concat2("invalid headers json: ", m.as_str()))),
    }
}

/// The list of strings that `serde_json` reads from `text`; none when `text` is not a
/// JSON array of strings.
pub uninterp spec fn json_string_list(text: Seq<char>) -> Option<Seq<Seq<char>>>;

/// The message of `serde_json`'s error for `text` read as a list of strings.
pub uninterp spec fn json_string_list_error(text: Seq<char>) -> Seq<char>;

/// `serde_json::from_str` into a `Vec<String>`. The contract claims only that the list,
/// or the error's message, is the named function of the text.
#[verifier::external_body]
fn json_string_list_of(text: &str) -> (r: Result<Vec<String>, String>)
    ensures
        match r {
            Ok(v) => json_string_list(text@) == Some(strings_view(v@)),
            Err(m) => json_string_list(text@) is None && m@ == json_string_list_error(text@),
        },
{
    serde_json::from_str::<Vec<String>>(text).map_err(|e| e.to_string())
}

/// A list of strings given as JSON text; refused, naming `what`, when the text is not one.
pub fn string_list_json(text: &str, what: &str) -> (r: Result<Vec<String>, CoreError>)
    ensures
        match json_string_list(text@) {
            Some(l) => r matches Ok(v) && strings_view(v@) == l,
            None => r matches Err(e) && e@ == CoreErrorView::Validation(
                "invalid "@ + what@ + " json: "@ + json_string_list_error(text@),
            ),
        },
{
    match json_string_list_of(text) {
        Ok(v) => Ok(v),
        Err(m) => {
            let msg = crate::text::concat4("invalid ", what, " json: ", m.as_str());
            Err(CoreError::Validation(msg))
        },
    }
}

/// The members `serde_json` reads from `text`: none when `text` is not JSON; `Some(None)`
/// when it is JSON but not an object; otherwise, for each member, its name, whether its
/// value is null, the value's text when it is a string, and the value's JSON text.
pub uninterp spec fn json_object_members(text: Seq<char>) -> Option<Option<Seq<(Seq<char>, bool, Option<Seq<char>>, Seq<char>)>>>;

/// The message of `serde_json`'s error for `text` read as a JSON value.
pub uninterp spec fn json_value_error(text: Seq<char>) -> Seq<char>;

/// The view of one member as `json_object_members` gives it.
pub open spec fn member_view(m: (String, bool, Option<String>, String)) -> (Seq<char>, bool, Option<Seq<char>>, Seq<char>) {
    (m.0@, m.1, match m.2 { Some(t) => Some(t@), None => None }, m.3@)
}

/// The view of the members read from JSON text.
pub open spec fn members_view(o: Option<Vec<(String, bool, Option<String>, String)>>) -> Option<Seq<(Seq<char>, bool, Option<Seq<char>>, Seq<char>)>> {
    match o {
        Some(v) => Some(v@.map_values(|m: (String, bool, Option<String>, String)| member_view(m))),
        None => None,
    }
}

/// `serde_json::from_str` into a `serde_json::Value`; for an object, each member's name,
/// `Value::is_null`, `Value::as_str` and the value's JSON text (`Value::to_string`). The
/// contract claims only that these, or the error's message, are the named functions of
/// the text.
#[verifier::external_body]
fn json_object_members_of(text: &str) -> (r: Result<Option<Vec<(String, bool, Option<String>, String)>>, String>)
    ensures
        match r {
            Ok(o) => json_object_members(text@) == Some(members_view(o)),
            Err(m) => json_object_members(text@) is None && m@ == json_value_error(text@),
        },
{
    let value: serde_json::Value = serde_json::from_str(text).map_err(|e| e.to_string())?;
    Ok(value.as_object().map(|object| {
        object.iter().map(|(k, v)| (k.clone(), v.is_null(), v.as_str().map(str::to_string), v.to_string())).collect()
    }))
}

/// The text a property value given in JSON is written with: empty for null, the string
/// itself, or the value's JSON text.
pub open spec fn property_text(m: (Seq<char>, bool, Option<Seq<char>>, Seq<char>)) -> Seq<char> {
    if m.1 {
        Seq::empty()
    } else {
        match m.2 {
            Some(t) => t,
            None => m.3,
        }
    }
}

/// The properties that JSON members give, in order.
pub open spec fn property_pairs(ms: Seq<(Seq<char>, bool, Option<Seq<char>>, Seq<char>)>) -> Seq<(Seq<char>, Seq<char>)> {
    ms.map_values(|m: (Seq<char>, bool, Option<Seq<char>>, Seq<char>)| (m.0, property_text(m)))
}

/// The server properties given as a JSON object: each member's value as text (empty for
/// null, a string as itself, any other value as its JSON text); refused when the text is
/// not JSON or not an object.
pub fn properties_from_json(text: &str) -> (r: Result<crate::registry::Registry<String>, CoreError>)
    ensures
        match json_object_members(text@) {
            None => r matches Err(e) && e@ == CoreErrorView::Validation(
                "invalid properties json: "@ + json_value_error(text@),
            ),
            Some(None) => r matches Err(e) && e@ == CoreErrorView::Validation(
                "properties json must be an object"@,
            ),
            Some(Some(ms)) => r matches Ok(reg) && reg.wf() && crate::game::text_map_view(reg.map())
                == crate::local::pairs_map(property_pairs(ms)),
        },
{
    let members = match json_object_members_of(text) {
        Ok(Some(v)) => v,
        Ok(None) => return Err(CoreError::Validation(owned("properties json must be an object"))),
        Err(m) => return Err(CoreError::Validation(crate::text::concat2("invalid properties json: ", m.as_str()))),
    };
    let ghost ms = members@.map_values(|m: (String, bool, Option<String>, String)| member_view(m));
    let ghost ps = property_pairs(ms);
    let mut reg: crate::registry::Registry<String> = crate::registry::Registry::new();
    assert(crate::game::text_map_view(reg.map()) =~= crate::local::pairs_map(ps.take(0)));
    let mut i: usize = 0;
    while i < members.len()
        invariant
            i <= members.len(),
            reg.wf(),
            ms == members@.map_values(|m: (String, bool, Option<String>, String)| member_view(m)),
            ps == property_pairs(ms),
            crate::game::text_map_view(reg.map()) == crate::local::pairs_map(ps.take(i as int)),
        decreases members.len() - i,
    {
        let m = &members[i];
        let value = if m.1 {
            String::new()
        } else {
            match &m.2 {
                Some(t) => owned(t.as_str()),
                None => owned(m.3.as_str()),
            }
        };
        assert(value@ == property_text(ms[i as int]));
        assert(ps.take(i + 1).drop_last() =~= ps.take(i as int));
        assert(ps.take(i + 1).last() == (m.0@, value@));
        let ghost before = reg.map();
        reg.insert(owned(m.0.as_str()), value);
        assert(crate::game::text_map_view(reg.map()) =~= crate::game::text_map_view(before).insert(m.0@, value@));
        i += 1;
    }
    assert(ps.take(members.len() as int) =~= ps);
    Ok(reg)
}

/// How a required dependency is found: the version it names, read at its address, or
/// the first of its project's versions (listed at the address) that suits the
/// selection.
pub enum DependencySource {
    Version(String),
    FirstMatchingVersion(String),
}

/// How a required dependency is found: by its version when it names one, else among
/// its project's versions.
pub fn dependency_source(dependency: &DependencyRef) -> (r: DependencySource)
    ensures
        match dependency.version_id {
            Some(v) => r matches DependencySource::Version(u) && u@ == crate::web::version_url_seq(v@),
            None => r matches DependencySource::FirstMatchingVersion(u) && u@
                == crate::web::project_versions_url_seq(dependency.project_id@),
        },
{
    match &dependency.version_id {
        Some(v) => DependencySource::Version(crate::web::version_url(v.as_str())),
        None => DependencySource::FirstMatchingVersion(crate::web::project_versions_url(dependency.project_id.as_str())),
    }
}

} // verus!
