//! Game and loader versions offered for each kind of server, chosen from the catalogues
//! that Mojang, Fabric and Forge publish.

use vstd::prelude::*;
use crate::error::{CoreError, CoreErrorView};
use crate::game::text_map_view;
use crate::model::strings_view;
use crate::registry::Registry;
use crate::text::{
    ascii_lower_seq, chars_of, concat2, has_suffix, owned, str_eq, string_of_range,
    to_ascii_lowercase, trim, trim_seq,
};

verus! {

// ---------------------------------------------------------------------------
// Kinds of server
// ---------------------------------------------------------------------------

/// A server type as typed by a user: trimmed and in ASCII lower case.
pub open spec fn type_key(server_type: Seq<char>) -> Seq<char> {
    ascii_lower_seq(trim_seq(server_type))
}

/// A server type trimmed and in ASCII lower case.
pub fn normalized_type(server_type: &str) -> (r: String)
    ensures
        r@ == type_key(server_type@),
{
    let t = trim(server_type);
    to_ascii_lowercase(t.as_str())
}

/// The catalogue the game versions of a kind of server come from.
#[derive(PartialEq, Eq, Structural, Clone, Copy)]
pub enum GameVersionCatalogue {
    Mojang,
    Fabric,
    Forge,
}

/// The catalogue of game versions for a server type: Mojang's for vanilla, Paper and
/// custom servers, Fabric's and Forge's for theirs; other types are refused.
pub open spec fn spec_game_version_catalogue(server_type: Seq<char>) -> Result<GameVersionCatalogue, CoreErrorView> {
    let k = type_key(server_type);
    if k == "vanilla"@ || k == "paper"@ || k == "custom"@ {
        Ok(GameVersionCatalogue::Mojang)
    } else if k == "fabric"@ {
        Ok(GameVersionCatalogue::Fabric)
    } else if k == "forge"@ {
        Ok(GameVersionCatalogue::Forge)
    } else {
        Err(CoreErrorView::Validation("game versions are unsupported for server type: "@ + k))
    }
}

/// The catalogue of game versions for a server type.
pub fn game_version_catalogue(server_type: &str) -> (r: Result<GameVersionCatalogue, CoreError>)
    ensures
        crate::error::result_view(r) == spec_game_version_catalogue(server_type@),
{
    let k = normalized_type(server_type);
    if str_eq(k.as_str(), "vanilla") || str_eq(k.as_str(), "paper") || str_eq(k.as_str(), "custom") {
        Ok(GameVersionCatalogue::Mojang)
    } else if str_eq(k.as_str(), "fabric") {
        Ok(GameVersionCatalogue::Fabric)
    } else if str_eq(k.as_str(), "forge") {
        Ok(GameVersionCatalogue::Forge)
    } else {
        Err(CoreError::Validation(concat2("game versions are unsupported for server type: ", k.as_str())))
    }
}

/// The loaders with versions to choose from.
#[derive(PartialEq, Eq, Structural, Clone, Copy)]
pub enum LoaderKind {
    Fabric,
    Forge,
}

/// The loader of a server type, for the operation named in `what` (its error reads
/// "`what` unsupported for server type: ..."): only Fabric and Forge have one.
pub open spec fn spec_loader_kind(server_type: Seq<char>, what: Seq<char>) -> Result<LoaderKind, CoreErrorView> {
    let k = type_key(server_type);
    if k == "fabric"@ {
        Ok(LoaderKind::Fabric)
    } else if k == "forge"@ {
        Ok(LoaderKind::Forge)
    } else {
        Err(CoreErrorView::Validation(what + " unsupported for server type: "@ + k))
    }
}

/// The loader of a server type; `what` names the operation in the error.
pub fn loader_kind(server_type: &str, what: &str) -> (r: Result<LoaderKind, CoreError>)
    ensures
        crate::error::result_view(r) == spec_loader_kind(server_type@, what@),
{
    let k = normalized_type(server_type);
    if str_eq(k.as_str(), "fabric") {
        Ok(LoaderKind::Fabric)
    } else if str_eq(k.as_str(), "forge") {
        Ok(LoaderKind::Forge)
    } else {
        let mut m = owned(what);
        crate::text::append(&mut m, " unsupported for server type: ");
        crate::text::append(&mut m, k.as_str());
        Err(CoreError::Validation(m))
    }
}

// ---------------------------------------------------------------------------
// Filtering catalogues
// ---------------------------------------------------------------------------

/// The names of the entries kept by `keep`, in order.
pub open spec fn kept_names(names: Seq<Seq<char>>, keep: Seq<bool>) -> Seq<Seq<char>>
    decreases names.len(),
{
    if names.len() == 0 {
        Seq::empty()
    } else {
        let rest = kept_names(names.drop_last(), keep.take(names.len() - 1));
        if keep[names.len() - 1] {
            rest.push(names.last())
        } else {
            rest
        }
    }
}

/// The names whose flag is set, in order.
fn names_where(names: &Vec<String>, keep: &Vec<bool>) -> (r: Vec<String>)
    requires
        keep@.len() == names@.len(),
    ensures
        strings_view(r@) == kept_names(strings_view(names@), keep@),
{
    let ghost ns = strings_view(names@);
    let mut out: Vec<String> = Vec::new();
    let mut i: usize = 0;
    assert(ns.take(0) =~= Seq::<Seq<char>>::empty());
    while i < names.len()
        invariant
            i <= names.len(),
            keep@.len() == names@.len(),
            ns == strings_view(names@),
            strings_view(out@) == kept_names(ns.take(i as int), keep@.take(i as int)),
        decreases names.len() - i,
    {
        assert(ns.take(i + 1).drop_last() =~= ns.take(i as int));
        assert(keep@.take(i + 1).take(i as int) =~= keep@.take(i as int));
        if keep[i] {
            let ghost before = out@;
            out.push(owned(names[i].as_str()));
            assert(strings_view(out@) =~= strings_view(before).push(ns[i as int]));
        }
        i += 1;
    }
    assert(ns.take(names.len() as int) =~= ns);
    assert(keep@.take(names.len() as int) =~= keep@);
    out
}

/// Mojang's game versions: all of them with snapshots, otherwise the releases; `ids`
/// and `kinds` give each version's id and type.
pub fn mojang_game_versions(ids: &Vec<String>, kinds: &Vec<String>, include_snapshots: bool) -> (r: Vec<String>)
    requires
        kinds@.len() == ids@.len(),
    ensures
        include_snapshots ==> strings_view(r@) == strings_view(ids@),
        !include_snapshots ==> strings_view(r@) == kept_names(
            strings_view(ids@),
            strings_view(kinds@).map_values(|k: Seq<char>| k == "release"@),
        ),
{
    let mut keep: Vec<bool> = Vec::new();
    let mut i: usize = 0;
    while i < kinds.len()
        invariant
            i <= kinds.len(),
            keep@ == strings_view(kinds@).map_values(|k: Seq<char>| k == "release"@).take(i as int),
        decreases kinds.len() - i,
    {
        keep.push(str_eq(kinds[i].as_str(), "release"));
        assert(keep@ =~= strings_view(kinds@).map_values(|k: Seq<char>| k == "release"@).take(i + 1));
        i += 1;
    }
    assert(keep@ =~= strings_view(kinds@).map_values(|k: Seq<char>| k == "release"@));
    if include_snapshots {
        let all = vec_of_texts(ids);
        return all;
    }
    names_where(ids, &keep)
}

/// A copy of the strings.
fn vec_of_texts(v: &Vec<String>) -> (r: Vec<String>)
    ensures
        strings_view(r@) == strings_view(v@),
{
    let mut out: Vec<String> = Vec::new();
    let mut i: usize = 0;
    while i < v.len()
        invariant
            i <= v.len(),
            strings_view(out@) == strings_view(v@).take(i as int),
        decreases v.len() - i,
    {
        let ghost before = out@;
        out.push(owned(v[i].as_str()));
        assert(strings_view(out@) =~= strings_view(before).push(v@[i as int]@));
        assert(strings_view(v@).take(i + 1) =~= strings_view(v@).take(i as int).push(v@[i as int]@));
        i += 1;
    }
    assert(strings_view(v@).take(v.len() as int) =~= strings_view(v@));
    out
}

/// Fabric's game versions: all of them with snapshots, otherwise the stable ones.
pub fn fabric_game_versions(versions: &Vec<String>, stable: &Vec<bool>, include_snapshots: bool) -> (r: Vec<String>)
    requires
        stable@.len() == versions@.len(),
    ensures
        include_snapshots ==> strings_view(r@) == strings_view(versions@),
        !include_snapshots ==> strings_view(r@) == kept_names(strings_view(versions@), stable@),
{
    if include_snapshots {
        vec_of_texts(versions)
    } else {
        names_where(versions, stable)
    }
}

/// The version of the first stable entry, else of the first entry.
pub open spec fn first_stable_or_first(versions: Seq<Seq<char>>, stable: Seq<bool>) -> Option<Seq<char>> {
    if exists|i: int| 0 <= i < versions.len() && stable[i] {
        Some(versions[choose|i: int| 0 <= i < versions.len() && stable[i] && forall|j: int| 0 <= j < i ==> !stable[j]])
    } else if versions.len() > 0 {
        Some(versions[0])
    } else {
        None
    }
}

/// The version of the first stable entry, else of the first entry; `missing` is the
/// error message when there is no entry.
pub fn pick_stable_version(versions: &Vec<String>, stable: &Vec<bool>, missing: &str) -> (r: Result<String, CoreError>)
    requires
        stable@.len() == versions@.len(),
    ensures
        match first_stable_or_first(strings_view(versions@), stable@) {
            Some(v) => r matches Ok(s) && s@ == v,
            None => r matches Err(e) && e@ == CoreErrorView::Runtime(missing@),
        },
{
    let mut i: usize = 0;
    while i < versions.len()
        invariant
            i <= versions.len(),
            stable@.len() == versions@.len(),
            forall|j: int| 0 <= j < i ==> !stable@[j],
        decreases versions.len() - i,
    {
        if stable[i] {
            let ghost k = choose|k: int| 0 <= k < versions@.len() && stable@[k] && forall|j: int| 0 <= j < k ==> !stable@[j];
            assert(0 <= i < versions@.len() && stable@[i as int] && forall|j: int| 0 <= j < i ==> !stable@[j]);
            assert(k == i as int) by {
                if k < i {
                    assert(!stable@[k]);
                } else if k > i {
                    assert(!stable@[i as int]);
                }
            }
            return Ok(owned(versions[i].as_str()));
        }
        i += 1;
    }
    if versions.len() > 0 {
        Ok(owned(versions[0].as_str()))
    } else {
        Err(CoreError::Runtime(owned(missing)))
    }
}

/// Forge's recommended loader for a game version, else its latest one.
pub open spec fn forge_promoted_loader(promos: Map<Seq<char>, Seq<char>>, game_version: Seq<char>) -> Option<Seq<char>> {
    if promos.contains_key(game_version + "-recommended"@) {
        Some(promos[game_version + "-recommended"@])
    } else if promos.contains_key(game_version + "-latest"@) {
        Some(promos[game_version + "-latest"@])
    } else {
        None
    }
}

/// Forge's recommended loader for a game version, else its latest one, from its
/// promotions.
pub fn latest_forge_loader(promos: &Registry<String>, game_version: &str) -> (r: Result<String, CoreError>)
    requires
        promos.wf(),
    ensures
        match forge_promoted_loader(text_map_view(promos.map()), game_version@) {
            Some(v) => r matches Ok(s) && s@ == v,
            None => r matches Err(e) && e@ == CoreErrorView::Runtime("forge loader version not found"@),
        },
{
    let recommended = concat2(game_version, "-recommended");
    if let Some(v) = promos.get(recommended.as_str()) {
        return Ok(owned(v.as_str()));
    }
    let latest = concat2(game_version, "-latest");
    if let Some(v) = promos.get(latest.as_str()) {
        return Ok(owned(v.as_str()));
    }
    Err(CoreError::Runtime(owned("forge loader version not found")))
}

/// The loaders Forge offers for a game version, from a manifest listing game versions
/// with their loaders.
pub open spec fn spec_forge_loader_versions(ids: Seq<Seq<char>>, loaders: Seq<Seq<Seq<char>>>, game_version: Seq<char>) -> Result<Seq<Seq<char>>, CoreErrorView> {
    if exists|i: int| 0 <= i < ids.len() && ids[i] == game_version {
        Ok(loaders[choose|i: int| 0 <= i < ids.len() && ids[i] == game_version && forall|j: int| 0 <= j < i ==> ids[j] != game_version])
    } else {
        Err(CoreErrorView::Runtime("forge loader versions not found for "@ + game_version))
    }
}

/// The loaders Forge offers for a game version, from the manifest's game version ids
/// and, for each, its loader ids.
pub fn forge_loader_versions(ids: &Vec<String>, loaders: &Vec<Vec<String>>, game_version: &str) -> (r: Result<Vec<String>, CoreError>)
    requires
        loaders@.len() == ids@.len(),
    ensures
        match r {
            Ok(v) => spec_forge_loader_versions(strings_view(ids@), loaders@.map_values(|l: Vec<String>| strings_view(l@)), game_version@)
                == Ok::<Seq<Seq<char>>, CoreErrorView>(strings_view(v@)),
            Err(e) => spec_forge_loader_versions(strings_view(ids@), loaders@.map_values(|l: Vec<String>| strings_view(l@)), game_version@)
                == Err::<Seq<Seq<char>>, CoreErrorView>(e@),
        },
{
    let ghost ns = strings_view(ids@);
    let mut i: usize = 0;
    while i < ids.len()
        invariant
            i <= ids.len(),
            loaders@.len() == ids@.len(),
            ns == strings_view(ids@),
            forall|j: int| 0 <= j < i ==> ns[j] != game_version@,
        decreases ids.len() - i,
    {
        if str_eq(ids[i].as_str(), game_version) {
            let ghost k = choose|k: int| 0 <= k < ns.len() && ns[k] == game_version@ && forall|j: int| 0 <= j < k ==> ns[j] != game_version@;
            assert(ns[i as int] == game_version@);
            assert(k == i as int) by {
                if k < i {
                    assert(ns[k] != game_version@);
                } else if k > i {
                    assert(ns[i as int] != game_version@);
                }
            }
            return Ok(vec_of_texts(&loaders[i]));
        }
        i += 1;
    }
    Err(CoreError::Runtime(concat2("forge loader versions not found for ", game_version)))
}

// ---------------------------------------------------------------------------
// Forge game versions, newest first
// ---------------------------------------------------------------------------

/// Strict lexicographic order on texts, character by character (the order of `str`).
pub open spec fn text_lt(a: Seq<char>, b: Seq<char>) -> bool
    decreases a.len(),
{
    if a.len() == 0 {
        b.len() > 0
    } else if b.len() == 0 {
        false
    } else if a[0] != b[0] {
        (a[0] as int) < (b[0] as int)
    } else {
        text_lt(a.drop_first(), b.drop_first())
    }
}

/// The order is transitive.
pub proof fn lemma_text_lt_transitive(a: Seq<char>, b: Seq<char>, c: Seq<char>)
    requires
        text_lt(a, b),
        text_lt(b, c),
    ensures
        text_lt(a, c),
    decreases a.len(),
{
    if a.len() > 0 && b.len() > 0 && c.len() > 0 && a[0] == b[0] && b[0] == c[0] {
        lemma_text_lt_transitive(a.drop_first(), b.drop_first(), c.drop_first());
    }
}

/// No text is below itself.
pub proof fn lemma_text_lt_irreflexive(a: Seq<char>)
    ensures
        !text_lt(a, a),
    decreases a.len(),
{
    if a.len() > 0 {
        lemma_text_lt_irreflexive(a.drop_first());
    }
}

/// Of two different texts, one is below the other.
pub proof fn lemma_text_lt_total(a: Seq<char>, b: Seq<char>)
    requires
        a != b,
    ensures
        text_lt(a, b) || text_lt(b, a),
    decreases a.len(),
{
    if a.len() > 0 && b.len() > 0 && a[0] == b[0] {
        if a.drop_first() == b.drop_first() {
            assert(a =~= seq![a[0]] + a.drop_first());
            assert(b =~= seq![b[0]] + b.drop_first());
        }
        lemma_text_lt_total(a.drop_first(), b.drop_first());
    } else if a.len() == 0 && b.len() == 0 {
        assert(a =~= b);
    } else if a.len() > 0 && b.len() > 0 {
        assert(a[0] as int != b[0] as int);
    }
}

/// The order seen after a common prefix.
proof fn lemma_text_lt_skip(a: Seq<char>, b: Seq<char>, i: int)
    requires
        0 <= i <= a.len(),
        i <= b.len(),
        a.take(i) == b.take(i),
    ensures
        text_lt(a, b) == text_lt(a.skip(i), b.skip(i)),
    decreases i,
{
    if i > 0 {
        assert(a[0] == a.take(i)[0]);
        assert(b[0] == b.take(i)[0]);
        assert(a.drop_first().take(i - 1) =~= a.take(i).drop_first());
        assert(b.drop_first().take(i - 1) =~= b.take(i).drop_first());
        lemma_text_lt_skip(a.drop_first(), b.drop_first(), i - 1);
        assert(a.drop_first().skip(i - 1) =~= a.skip(i));
        assert(b.drop_first().skip(i - 1) =~= b.skip(i));
    } else {
        assert(a.skip(0) =~= a);
        assert(b.skip(0) =~= b);
    }
}

/// Whether `a` comes before `b` in the order of texts.
pub fn text_less(a: &str, b: &str) -> (r: bool)
    ensures
        r == text_lt(a@, b@),
{
    let x = chars_of(a);
    let y = chars_of(b);
    let mut i: usize = 0;
    while i < x.len() && i < y.len()
        invariant
            x@ == a@,
            y@ == b@,
            i <= x.len(),
            i <= y.len(),
            x@.take(i as int) == y@.take(i as int),
        decreases x.len() - i,
    {
        if x[i] != y[i] {
            proof {
                lemma_text_lt_skip(x@, y@, i as int);
                assert(x@.skip(i as int)[0] == x@[i as int]);
                assert(y@.skip(i as int)[0] == y@[i as int]);
            }
            return x[i] < y[i];
        }
        assert(x@.take(i + 1) =~= x@.take(i as int).push(x@[i as int]));
        assert(y@.take(i + 1) =~= y@.take(i as int).push(y@[i as int]));
        i += 1;
    }
    proof {
        lemma_text_lt_skip(x@, y@, i as int);
    }
    i == x.len() && i < y.len()
}

/// Whether texts are in strictly decreasing order.
pub open spec fn strictly_descending(s: Seq<Seq<char>>) -> bool {
    forall|i: int, j: int| 0 <= i < j < s.len() ==> text_lt(#[trigger] s[j], #[trigger] s[i])
}

/// Adds `v` to texts in strictly decreasing order, keeping them so and without
/// duplicates.
fn insert_descending(r: &mut Vec<String>, v: &str)
    requires
        strictly_descending(strings_view(old(r)@)),
    ensures
        strictly_descending(strings_view(final(r)@)),
        forall|x: Seq<char>| strings_view(final(r)@).contains(x) <==> (strings_view(old(r)@).contains(x) || x == v@),
{
    let ghost s = strings_view(r@);
    let mut j: usize = 0;
    while j < r.len()
        invariant
            j <= r@.len(),
            s == strings_view(r@),
            r@ == old(r)@,
            strictly_descending(s),
            forall|k: int| 0 <= k < j ==> text_lt(v@, #[trigger] s[k]),
        ensures
            j <= r@.len(),
            s == strings_view(r@),
            r@ == old(r)@,
            forall|k: int| 0 <= k < j ==> text_lt(v@, #[trigger] s[k]),
            j < r@.len() ==> !text_lt(v@, s[j as int]),
        decreases r.len() - j,
    {
        if !text_less(v, r[j].as_str()) {
            break;
        }
        j += 1;
    }
    if j < r.len() && str_eq(r[j].as_str(), v) {
        assert(s[j as int] == v@);
        return;
    }
    proof {
        if j < s.len() {
            lemma_text_lt_total(s[j as int], v@);
            assert(text_lt(s[j as int], v@));
            assert forall|k: int| j < k < s.len() implies text_lt(#[trigger] s[k], v@) by {
                lemma_text_lt_transitive(s[k], s[j as int], v@);
            }
        }
    }
    r.insert(j, owned(v));
    let ghost t = strings_view(r@);
    assert(t =~= s.insert(j as int, v@));
    assert forall|a: int, b: int| 0 <= a < b < t.len() implies text_lt(#[trigger] t[b], #[trigger] t[a]) by {
        if b == j {
        } else if a == j {
        } else if a < j && b > j {
            lemma_text_lt_transitive(t[b], v@, t[a]);
        }
    }
    assert forall|x: Seq<char>| t.contains(x) <==> (s.contains(x) || x == v@) by {
        if t.contains(x) {
            let k = choose|k: int| 0 <= k < t.len() && t[k] == x;
            if k < j {
                assert(s[k] == x);
            } else if k > j {
                assert(s[k - 1] == x);
            }
        }
        if s.contains(x) {
            let k = choose|k: int| 0 <= k < s.len() && s[k] == x;
            if k < j {
                assert(t[k] == x);
            } else {
                assert(t[k + 1] == x);
            }
        }
        if x == v@ {
            assert(t[j as int] == x);
        }
    }
}

/// `s` without any number of trailing copies of `p` (`str::trim_end_matches`).
pub open spec fn strip_trailing(s: Seq<char>, p: Seq<char>) -> Seq<char>
    decreases s.len(),
{
    if p.len() > 0 && has_suffix(s, p) {
        strip_trailing(s.take(s.len() - p.len()), p)
    } else {
        s
    }
}

/// The game version of a Forge promotion key: the key without its `-recommended` or,
/// failing that, `-latest` suffix; none for other keys.
pub open spec fn promo_game_version(key: Seq<char>) -> Option<Seq<char>> {
    if has_suffix(key, "-recommended"@) {
        Some(strip_trailing(key, "-recommended"@))
    } else if has_suffix(key, "-latest"@) {
        Some(strip_trailing(key, "-latest"@))
    } else {
        None
    }
}

/// `s` without any number of trailing copies of `p`.
fn strip_all_suffix(s: &str, p: &str) -> (r: String)
    requires
        p@.len() > 0,
    ensures
        r@ == strip_trailing(s@, p@),
{
    let v = chars_of(s);
    let plen = chars_of(p).len();
    let mut end: usize = v.len();
    assert(v@.take(end as int) =~= v@);
    while end >= plen && crate::text::ends_with(string_of_range(&v, 0, end).as_str(), p)
        invariant
            v@ == s@,
            plen == p@.len(),
            end <= v.len(),
            p@.len() > 0,
            strip_trailing(s@, p@) == strip_trailing(v@.take(end as int), p@),
        decreases end,
    {
        assert(v@.take(end as int).take(end - p@.len()) =~= v@.take(end - p@.len()));
        end = end - plen;
    }
    let r = string_of_range(&v, 0, end);
    proof {
        assert(r@ =~= v@.take(end as int));
        if end < p@.len() {
            assert(!has_suffix(v@.take(end as int), p@));
        }
    }
    r
}

/// The game version of a Forge promotion key.
fn promo_version(key: &str) -> (r: Option<String>)
    ensures
        crate::cli_args::ov(r) == promo_game_version(key@),
{
    proof {
        reveal_strlit("-recommended");
        reveal_strlit("-latest");
    }
    if crate::text::ends_with(key, "-recommended") {
        Some(strip_all_suffix(key, "-recommended"))
    } else if crate::text::ends_with(key, "-latest") {
        Some(strip_all_suffix(key, "-latest"))
    } else {
        None
    }
}

/// Whether `x` is the game version of one of the promotion keys.
pub open spec fn promoted(keys: Seq<Seq<char>>, x: Seq<char>) -> bool {
    exists|k: int| 0 <= k < keys.len() && promo_game_version(keys[k]) == Some(x)
}

/// Forge's game versions, from its promotion keys: each promoted game version once,
/// newest first in the order of texts.
pub fn forge_game_versions(promo_keys: &Vec<String>) -> (r: Vec<String>)
    ensures
        strictly_descending(strings_view(r@)),
        forall|x: Seq<char>| strings_view(r@).contains(x) <==> promoted(strings_view(promo_keys@), x),
{
    let ghost keys = strings_view(promo_keys@);
    let mut r: Vec<String> = Vec::new();
    let mut i: usize = 0;
    while i < promo_keys.len()
        invariant
            i <= promo_keys.len(),
            keys == strings_view(promo_keys@),
            strictly_descending(strings_view(r@)),
            forall|x: Seq<char>| strings_view(r@).contains(x) <==> promoted(keys.take(i as int), x),
        decreases promo_keys.len() - i,
    {
        let ghost before = strings_view(r@);
        let ghost kt = keys.take(i + 1);
        let ghost k0 = keys.take(i as int);
        match promo_version(promo_keys[i].as_str()) {
            Some(v) => {
                insert_descending(&mut r, v.as_str());
                assert forall|x: Seq<char>| strings_view(r@).contains(x) <==> promoted(kt, x) by {
                    if promoted(kt, x) {
                        let k = choose|k: int| 0 <= k < kt.len() && promo_game_version(kt[k]) == Some(x);
                        if k < i {
                            assert(k0[k] == kt[k]);
                            assert(promoted(k0, x));
                        }
                    }
                    if promoted(k0, x) {
                        let k = choose|k: int| 0 <= k < k0.len() && promo_game_version(k0[k]) == Some(x);
                        assert(kt[k] == k0[k]);
                    }
                    if x == v@ {
                        assert(kt[i as int] == keys[i as int]);
                    }
                }
            },
            None => {
                assert forall|x: Seq<char>| strings_view(r@).contains(x) <==> promoted(kt, x) by {
                    if promoted(kt, x) {
                        let k = choose|k: int| 0 <= k < kt.len() && promo_game_version(kt[k]) == Some(x);
                        if k < i {
                            assert(k0[k] == kt[k]);
                        } else {
                            assert(kt[k] == keys[i as int]);
                        }
                    }
                    if promoted(k0, x) {
                        let k = choose|k: int| 0 <= k < k0.len() && promo_game_version(k0[k]) == Some(x);
                        assert(kt[k] == k0[k]);
                    }
                }
            },
        }
        i += 1;
    }
    assert(keys.take(promo_keys.len() as int) =~= keys);
    r
}


/// The position of the first id equal to `id`.
pub open spec fn first_index_of(ids: Seq<Seq<char>>, id: Seq<char>) -> Option<int> {
    if exists|i: int| 0 <= i < ids.len() && ids[i] == id {
        Some(choose|i: int| 0 <= i < ids.len() && ids[i] == id && forall|j: int| 0 <= j < i ==> ids[j] != id)
    } else {
        None
    }
}

/// The address of the manifest of a game version, from Mojang's version list (ids and
/// manifest addresses); a version that is not listed is an error.
pub fn version_manifest_url(ids: &Vec<String>, urls: &Vec<String>, game_version: &str) -> (r: Result<String, CoreError>)
    requires
        urls@.len() == ids@.len(),
    ensures
        match first_index_of(strings_view(ids@), game_version@) {
            Some(i) => r matches Ok(u) && u@ == urls@[i]@,
            None => r matches Err(e) && e@ == CoreErrorView::Runtime("minecraft version not found: "@ + game_version@),
        },
{
    let ghost ns = strings_view(ids@);
    let mut i: usize = 0;
    while i < ids.len()
        invariant
            i <= ids.len(),
            urls@.len() == ids@.len(),
            ns == strings_view(ids@),
            forall|j: int| 0 <= j < i ==> ns[j] != game_version@,
        decreases ids.len() - i,
    {
        if str_eq(ids[i].as_str(), game_version) {
            let ghost k = choose|k: int| 0 <= k < ns.len() && ns[k] == game_version@ && forall|j: int| 0 <= j < k ==> ns[j] != game_version@;
            assert(ns[i as int] == game_version@);
            assert(k == i as int) by {
                if k < i {
                    assert(ns[k] != game_version@);
                } else if k > i {
                    assert(ns[i as int] != game_version@);
                }
            }
            return Ok(owned(urls[i].as_str()));
        }
        i += 1;
    }
    Err(CoreError::Runtime(concat2("minecraft version not found: ", game_version)))
}

/// The core whose FastMirror detail gives a server's download, or why there is none: a
/// custom jar has no download, the loader version must not be blank, and the core is
/// the one named (trimmed, when not blank) or the one of the server type.
pub open spec fn spec_fastmirror_core(
    server_type: crate::model::ServerType,
    loader_version: Seq<char>,
    core_name: Option<Seq<char>>,
) -> Result<Seq<char>, CoreErrorView> {
    if server_type == crate::model::ServerType::Custom {
        Err(CoreErrorView::Validation("custom jar does not have a download target"@))
    } else if trim_seq(loader_version).len() == 0 {
        Err(CoreErrorView::Validation("loader version cannot be empty"@))
    } else {
        match core_name {
            Some(c) => if trim_seq(c).len() > 0 {
                Ok(trim_seq(c))
            } else {
                Ok(crate::mirror::spec_fastmirror_core_name(server_type))
            },
            None => Ok(crate::mirror::spec_fastmirror_core_name(server_type)),
        }
    }
}

/// The core whose FastMirror detail gives a server's download.
pub fn fastmirror_core(server_type: crate::model::ServerType, loader_version: &str, core_name: Option<&str>) -> (r: Result<
    String,
    CoreError,
>)
    ensures
        crate::mirror::string_result_view(r) == spec_fastmirror_core(server_type, loader_version@, crate::game::opt_str_view(core_name)),
{
    if server_type == crate::model::ServerType::Custom {
        return Err(CoreError::Validation(owned("custom jar does not have a download target")));
    }
    if crate::text::is_blank(loader_version) {
        return Err(CoreError::Validation(owned("loader version cannot be empty")));
    }
    if let Some(c) = core_name {
        let t = trim(c);
        if !t.as_str().is_empty() {
            return Ok(t);
        }
    }
    Ok(owned(crate::mirror::fastmirror_core_name(server_type)))
}

// ---------------------------------------------------------------------------
// Where a download target is resolved
// ---------------------------------------------------------------------------

/// How the download of a new server's jar is found for a mirror source.
#[derive(PartialEq, Eq, Structural, Clone, Copy)]
pub enum DownloadRoute {
    /// Asked of FastMirror.
    FastMirror,
    /// Given directly by the request (Polars and custom mirrors).
    Direct,
    /// Asked of the project that publishes the server.
    Official,
}

/// The route for a mirror source, trimmed and in ASCII lower case: `fastmirror`,
/// `polars` or `custom`, `official` or nothing; any other source is refused.
pub open spec fn spec_download_route(mirror_source: Seq<char>) -> Result<DownloadRoute, CoreErrorView> {
    let k = type_key(mirror_source);
    if k == "fastmirror"@ {
        Ok(DownloadRoute::FastMirror)
    } else if k == "polars"@ || k == "custom"@ {
        Ok(DownloadRoute::Direct)
    } else if k == "official"@ || k.len() == 0 {
        Ok(DownloadRoute::Official)
    } else {
        Err(CoreErrorView::Validation("unsupported mirror source: "@ + k))
    }
}

/// The route the download target of a mirror source is resolved by.
pub fn download_route(mirror_source: &str) -> (r: Result<DownloadRoute, CoreError>)
    ensures
        crate::error::result_view(r) == spec_download_route(mirror_source@),
{
    let k = normalized_type(mirror_source);
    if str_eq(k.as_str(), "fastmirror") {
        Ok(DownloadRoute::FastMirror)
    } else if str_eq(k.as_str(), "polars") || str_eq(k.as_str(), "custom") {
        Ok(DownloadRoute::Direct)
    } else if str_eq(k.as_str(), "official") || k.as_str().is_empty() {
        Ok(DownloadRoute::Official)
    } else {
        Err(CoreError::Validation(concat2("unsupported mirror source: ", k.as_str())))
    }
}

/// The agent Paper's download service is asked with.
pub const PAPER_USER_AGENT: &'static str = "SwiftCraftServerLauncher/1.0";

/// A file of a Paper build: its name and address.
pub struct PaperDownload {
    pub name: String,
    pub url: String,
}

/// A Paper build: its release channel and its downloads by kind.
pub struct PaperBuild {
    pub channel: String,
    pub downloads: Vec<(String, PaperDownload)>,
}

/// The download of kind `key` among `downloads`.
pub open spec fn download_of(downloads: Seq<(String, PaperDownload)>, key: Seq<char>) -> Option<(Seq<char>, Seq<char>)>
    decreases downloads.len(),
{
    if downloads.len() == 0 {
        None
    } else if downloads[0].0@ == key {
        Some((downloads[0].1.name@, downloads[0].1.url@))
    } else {
        download_of(downloads.drop_first(), key)
    }
}

/// The position of the first build on the stable channel (in any ASCII case).
pub open spec fn first_stable_build(builds: Seq<PaperBuild>) -> Option<int> {
    if exists|i: int| 0 <= i < builds.len() && ascii_lower_seq(#[trigger] builds[i].channel@) == "stable"@ {
        Some(choose|i: int| 0 <= i < builds.len() && ascii_lower_seq(#[trigger] builds[i].channel@) == "stable"@
            && forall|j: int| 0 <= j < i ==> ascii_lower_seq(#[trigger] builds[j].channel@) != "stable"@)
    } else {
        None
    }
}

/// The server jar of the first stable Paper build, as name and address: refused when
/// no build is stable, or the build has no `server:default` download.
pub open spec fn spec_paper_server_download(builds: Seq<PaperBuild>) -> Result<(Seq<char>, Seq<char>), CoreErrorView> {
    match first_stable_build(builds) {
        None => Err(CoreErrorView::Runtime("paper stable build not found"@)),
        Some(i) => match download_of(builds[i].downloads@, "server:default"@) {
            None => Err(CoreErrorView::Runtime("paper server download not found"@)),
            Some(d) => Ok(d),
        },
    }
}

/// The download of kind `key` of a build.
fn find_download(downloads: &Vec<(String, PaperDownload)>, key: &str) -> (r: Option<(String, String)>)
    ensures
        match r {
            Some((n, u)) => download_of(downloads@, key@) == Some((n@, u@)),
            None => download_of(downloads@, key@) is None,
        },
{
    let mut i: usize = 0;
    assert(downloads@.skip(0) =~= downloads@);
    while i < downloads.len()
        invariant
            i <= downloads@.len(),
            download_of(downloads@, key@) == download_of(downloads@.skip(i as int), key@),
        decreases downloads@.len() - i,
    {
        assert(downloads@.skip(i as int).drop_first() =~= downloads@.skip(i as int + 1));
        if str_eq(downloads[i].0.as_str(), key) {
            return Some((owned(downloads[i].1.name.as_str()), owned(downloads[i].1.url.as_str())));
        }
        i = i + 1;
    }
    None
}

/// The server jar of the newest stable Paper build, as file name and address.
pub fn paper_server_download(builds: &Vec<PaperBuild>) -> (r: Result<(String, String), CoreError>)
    ensures
        match r {
            Ok((n, u)) => spec_paper_server_download(builds@) == Ok::<(Seq<char>, Seq<char>), CoreErrorView>((n@, u@)),
            Err(e) => spec_paper_server_download(builds@) == Err::<(Seq<char>, Seq<char>), CoreErrorView>(e@),
        },
{
    let mut i: usize = 0;
    while i < builds.len()
        invariant
            i <= builds@.len(),
            forall|j: int| 0 <= j < i ==> ascii_lower_seq(#[trigger] builds@[j].channel@) != "stable"@,
        decreases builds@.len() - i,
    {
        let channel = to_ascii_lowercase(builds[i].channel.as_str());
        if str_eq(channel.as_str(), "stable") {
            assert(first_stable_build(builds@) == Some(i as int)) by {
                let c = choose|k: int| 0 <= k < builds@.len() && ascii_lower_seq(#[trigger] builds@[k].channel@) == "stable"@
                    && forall|j: int| 0 <= j < k ==> ascii_lower_seq(#[trigger] builds@[j].channel@) != "stable"@;
                assert(0 <= c < builds@.len() && ascii_lower_seq(builds@[c].channel@) == "stable"@);
                if c < i {
                } else if c > i {
                    assert(ascii_lower_seq(builds@[i as int].channel@) != "stable"@);
                }
            }
            return match find_download(&builds[i].downloads, "server:default") {
                Some(d) => Ok(d),
                None => Err(CoreError::runtime("paper server download not found")),
            };
        }
        i = i + 1;
    }
    Err(CoreError::runtime("paper stable build not found"))
}

} // verus!
