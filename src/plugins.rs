//! Where plugin artifacts live, which files count as plugins, the inventory
//! advertised to the control plane, and the arguments handed to a plugin
//! call.
use vstd::prelude::*;

use crate::bridge::{std_array_to_vals, to_component, ComponentVal, Json, JsonValue};

verus! {

/// A failure of a plugin operation, as reported to the shell.
#[derive(Debug, Clone, PartialEq)]
pub enum PluginsErr {
    Wasmerr(String),
    IOerror(String),
    StripPrefixError(String),
    TauriError(String),
}

/// The file extension of a plugin artifact, dot included.
pub open spec fn artifact_ext() -> Seq<char> {
    seq!['.', 'w', 'a', 's', 'm']
}

/// The file extension of a script plugin, dot included.
pub open spec fn script_ext() -> Seq<char> {
    seq!['.', 'j', 's']
}

/// Whether `s` ends with `suffix`.
pub open spec fn ends_with(s: Seq<char>, suffix: Seq<char>) -> bool {
    suffix.len() <= s.len() && s.subrange(s.len() - suffix.len(), s.len() as int) == suffix
}

/// Whether a file name carries the extension `ext` (dot included): it ends
/// with it and has a non-empty stem before it, as a path's extension
/// requires.
pub open spec fn has_extension(name: Seq<char>, ext: Seq<char>) -> bool {
    name.len() > ext.len() && ends_with(name, ext)
}

/// The plugin a file of the plugins directory holds: the file's stem, where
/// the file is a component artifact.
pub open spec fn plugin_of_file(name: Seq<char>) -> Option<Seq<char>> {
    if has_extension(name, artifact_ext()) {
        Some(name.subrange(0, name.len() - artifact_ext().len()))
    } else {
        None
    }
}

/// The directory of plugin `name` under the data directory.
pub open spec fn plugin_dir_of(data_dir: Seq<char>, name: Seq<char>) -> Seq<char> {
    data_dir + seq!['/', 'p', 'l', 'u', 'g', 'i', 'n', 's', '/'] + name
}

/// The artifact of plugin `name` in directory `dir`.
pub open spec fn component_path_of(dir: Seq<char>, name: Seq<char>) -> Seq<char> {
    dir + seq!['/'] + name + artifact_ext()
}

fn str_ends_with(s: &str, suffix: &str) -> (r: bool)
    ensures
        r == ends_with(s@, suffix@),
{
    let n = s.unicode_len();
    let m = suffix.unicode_len();
    if m > n {
        return false;
    }
    let mut i: usize = 0;
    while i < m
        invariant
            n == s@.len(),
            m == suffix@.len(),
            m <= n,
            i <= m,
            forall|t: int| 0 <= t < i ==> s@[n - m + t] == suffix@[t],
        decreases m - i,
    {
        if s.get_char(n - m + i) != suffix.get_char(i) {
            assert(s@.subrange(n - m, n as int)[i as int] != suffix@[i as int]);
            return false;
        }
        i += 1;
    }
    assert(s@.subrange(n - m, n as int) =~= suffix@);
    true
}

/// The plugin held by the file called `file_name` in the plugins directory:
/// its stem, where the file has the component artifact extension.
pub fn plugin_name_of(file_name: &str) -> (r: Option<String>)
    ensures
        r is Some <==> plugin_of_file(file_name@) is Some,
        r is Some ==> r->Some_0@ == plugin_of_file(file_name@)->Some_0,
{
    let ext = ".wasm";
    proof {
        reveal_strlit(".wasm");
        assert(ext@ =~= artifact_ext());
    }
    let n = file_name.unicode_len();
    if n > 5 && str_ends_with(file_name, ext) {
        Some(String::from_str(file_name.substring_char(0, n - 5)))
    } else {
        None
    }
}

/// The directory that holds plugin `name`: `<data_dir>/plugins/<name>`.
pub fn plugin_dir(data_dir: &str, name: &str) -> (r: String)
    ensures
        r@ == plugin_dir_of(data_dir@, name@),
{
    proof {
        reveal_strlit("/plugins/");
    }
    let r = String::from_str(data_dir).concat("/plugins/").concat(name);
    assert(r@ =~= plugin_dir_of(data_dir@, name@));
    r
}

/// The artifact of plugin `name` inside `dir`: `<dir>/<name>.wasm`.
pub fn component_path(dir: &str, name: &str) -> (r: String)
    ensures
        r@ == component_path_of(dir@, name@),
{
    proof {
        reveal_strlit("/");
        reveal_strlit(".wasm");
    }
    let r = String::from_str(dir).concat("/").concat(name).concat(".wasm");
    assert(r@ =~= component_path_of(dir@, name@));
    r
}

/// Where the artifact of plugin `name` is stored:
/// `<data_dir>/plugins/<name>/<name>.wasm`. The synchronisation writes and
/// deletes this file, and a call of the plugin loads it.
pub fn artifact_path(data_dir: &str, name: &str) -> (r: String)
    ensures
        r@ == component_path_of(plugin_dir_of(data_dir@, name@), name@),
{
    let dir = plugin_dir(data_dir, name);
    component_path(dir.as_str(), name)
}

/// The path, relative to the plugins directory, under which the shell loads
/// a script plugin found as `file` in the plugin directory `dir`.
pub open spec fn script_entry(dir: Seq<char>, file: Seq<char>) -> Option<Seq<char>> {
    if has_extension(file, script_ext()) {
        Some(dir + seq!['/'] + file)
    } else {
        None
    }
}

/// The relative paths of the script plugins among `entries` (pairs of a
/// plugin directory name and the name of a file in it), in order.
pub open spec fn script_paths(entries: Seq<(Seq<char>, Seq<char>)>) -> Seq<Seq<char>>
    decreases entries.len(),
{
    if entries.len() == 0 {
        Seq::empty()
    } else {
        let init = script_paths(entries.drop_last());
        match script_entry(entries.last().0, entries.last().1) {
            Some(p) => init.push(p),
            None => init,
        }
    }
}

/// The views of a list of strings.
pub open spec fn strings_view(v: Seq<String>) -> Seq<Seq<char>> {
    Seq::new(v.len(), |k: int| v[k]@)
}

/// The views of a list of pairs of strings.
pub open spec fn pairs_view(v: Seq<(String, String)>) -> Seq<(Seq<char>, Seq<char>)> {
    Seq::new(v.len(), |k: int| (v[k].0@, v[k].1@))
}

/// The script plugins among the files found in the plugin directories:
/// for each `(dir, file)` whose file has the `.js` extension, the path
/// `dir/file`, relative to the plugins directory, in the order found.
pub fn js_plugins_path(entries: &Vec<(String, String)>) -> (r: Vec<String>)
    ensures
        strings_view(r@) == script_paths(pairs_view(entries@)),
{
    let ghost es = pairs_view(entries@);
    let ext = ".js";
    proof {
        reveal_strlit(".js");
        assert(ext@ =~= script_ext());
        reveal_strlit("/");
    }
    let mut out: Vec<String> = Vec::new();
    let mut k: usize = 0;
    while k < entries.len()
        invariant
            k <= entries.len(),
            es == pairs_view(entries@),
            ext@ == script_ext(),
            strings_view(out@) == script_paths(es.take(k as int)),
        decreases entries.len() - k,
    {
        let dir = &entries[k].0;
        let file = &entries[k].1;
        proof {
            assert(es.take(k as int + 1).drop_last() =~= es.take(k as int));
            assert(es.take(k as int + 1).last() == (dir@, file@));
        }
        if file.as_str().unicode_len() > 3 && str_ends_with(file.as_str(), ext) {
            let p = dir.clone().concat("/").concat(file.as_str());
            let ghost before = out@;
            out.push(p);
            proof {
                reveal_strlit("/");
                assert(p@ =~= dir@ + seq!['/'] + file@);
                assert(strings_view(out@) =~= strings_view(before).push(p@));
            }
        }
        k += 1;
    }
    assert(es.take(k as int) =~= es);
    out
}

/// The arguments of a plugin call: none when the shell gave none, the
/// converted elements when it gave a JSON array, and an error for any other
/// JSON value.
pub fn plugin_call_args(args: Option<JsonValue>) -> (r: Result<Vec<ComponentVal>, PluginsErr>)
    ensures
        args is None ==> r is Ok && r->Ok_0@.len() == 0,
        args is Some && !(args->Some_0@ is Array) ==> r is Err && r->Err_0 is Wasmerr,
        args is Some && args->Some_0@ is Array ==> r is Ok && r->Ok_0@.len()
            == args->Some_0@->Array_0.len() && forall|k: int|
            0 <= k < r->Ok_0@.len() ==> #[trigger] r->Ok_0@[k]@ == to_component(
                args->Some_0@->Array_0[k],
            ),
{
    match args {
        None => Ok(Vec::new()),
        Some(v) => match std_array_to_vals(&v) {
            Some(vals) => Ok(vals),
            None => Err(PluginsErr::Wasmerr(String::from_str("Expected an array"))),
        },
    }
}

/// What the probe of the artifacts found yields: each artifact's plugin name
/// and, where its `get-version` export answered, the version it reported.
pub open spec fn found_view(v: Seq<(String, Option<String>)>) -> Seq<(Seq<char>, Option<Seq<char>>)> {
    Seq::new(
        v.len(),
        |k: int|
            (
                v[k].0@,
                match v[k].1 {
                    Some(s) => Some(s@),
                    None => None,
                },
            ),
    )
}

/// The inventory advertised to the control plane: plugin name to version,
/// for every artifact whose version could be read; of two artifacts with one
/// name, the later one counts.
pub open spec fn inventory_of(found: Seq<(Seq<char>, Option<Seq<char>>)>) -> Map<Seq<char>, Seq<char>>
    decreases found.len(),
{
    if found.len() == 0 {
        Map::empty()
    } else {
        let m = inventory_of(found.drop_last());
        match found.last().1 {
            Some(v) => m.insert(found.last().0, v),
            None => m,
        }
    }
}

/// Whether no two entries of a list of pairs share a first component.
pub open spec fn names_unique(v: Seq<(Seq<char>, Seq<char>)>) -> bool {
    forall|i: int, j: int| 0 <= i < j < v.len() ==> v[i].0 != v[j].0
}

/// The map a list of pairs with distinct names stands for.
pub open spec fn pairs_map(v: Seq<(Seq<char>, Seq<char>)>) -> Map<Seq<char>, Seq<char>> {
    Map::new(
        |k: Seq<char>| exists|i: int| 0 <= i < v.len() && v[i].0 == k,
        |k: Seq<char>| v[choose|i: int| 0 <= i < v.len() && v[i].0 == k].1,
    )
}

fn upsert(out: &mut Vec<(String, String)>, name: String, version: String)
    requires
        names_unique(pairs_view(old(out)@)),
    ensures
        names_unique(pairs_view(final(out)@)),
        pairs_map(pairs_view(final(out)@)) == pairs_map(pairs_view(old(out)@)).insert(name@, version@),
{
    let ghost before = pairs_view(out@);
    let mut i: usize = 0;
    while i < out.len()
        invariant
            i <= out.len(),
            before == pairs_view(out@),
            out@ == old(out)@,
            names_unique(before),
            forall|t: int| 0 <= t < i ==> before[t].0 != name@,
        decreases out.len() - i,
    {
        if out[i].0 == name {
            let ghost idx = i as int;
            out[i] = (name, version);
            proof {
                let after = pairs_view(out@);
                assert(after =~= before.update(idx, (name@, version@)));
                assert forall|a: int, b: int| 0 <= a < b < after.len() implies after[a].0 != after[b].0 by {
                    assert(after[a].0 == before[a].0 && after[b].0 == before[b].0);
                }
                let m = pairs_map(before).insert(name@, version@);
                assert forall|x: Seq<char>| #[trigger] pairs_map(after).contains_key(x) <==> m.contains_key(x) by {
                    if m.contains_key(x) && x != name@ {
                        let j = choose|j: int| 0 <= j < before.len() && before[j].0 == x;
                        assert(after[j].0 == x);
                    }
                    if x == name@ {
                        assert(after[idx].0 == x);
                    }
                }
                assert forall|x: Seq<char>| #[trigger] pairs_map(after).contains_key(x) implies pairs_map(after)[x] == m[x] by {
                    let j = choose|j: int| 0 <= j < after.len() && after[j].0 == x;
                    if x == name@ {
                        assert(after[idx].0 == name@);
                        assert(j == idx);
                    } else {
                        let j2 = choose|j2: int| 0 <= j2 < before.len() && before[j2].0 == x;
                        assert(j == j2);
                    }
                }
                assert(pairs_map(after) =~= m);
            }
            return;
        }
        i += 1;
    }
    out.push((name, version));
    proof {
        let after = pairs_view(out@);
        let n = before.len() as int;
        assert(after =~= before.push((name@, version@)));
        let m = pairs_map(before).insert(name@, version@);
        assert forall|x: Seq<char>| #[trigger] pairs_map(after).contains_key(x) <==> m.contains_key(x) by {
            if m.contains_key(x) && x != name@ {
                let j = choose|j: int| 0 <= j < before.len() && before[j].0 == x;
                assert(after[j].0 == x);
            }
            if x == name@ {
                assert(after[n].0 == x);
            }
        }
        assert forall|x: Seq<char>| #[trigger] pairs_map(after).contains_key(x) implies pairs_map(after)[x] == m[x] by {
            let j = choose|j: int| 0 <= j < after.len() && after[j].0 == x;
            if x == name@ {
                assert(j == n);
            } else {
                let j2 = choose|j2: int| 0 <= j2 < before.len() && before[j2].0 == x;
                assert(j == j2);
            }
        }
        assert(pairs_map(after) =~= m);
    }
}

/// The inventory to advertise, from the artifacts found and what each one's
/// `get-version` export answered (`None` where the call failed): one entry
/// per plugin name, the plugins whose version could not be read left out.
pub fn get_list_plugins_with_versions(found: &Vec<(String, Option<String>)>) -> (r: Vec<(String, String)>)
    ensures
        names_unique(pairs_view(r@)),
        pairs_map(pairs_view(r@)) == inventory_of(found_view(found@)),
{
    let ghost fv = found_view(found@);
    let mut out: Vec<(String, String)> = Vec::new();
    let mut k: usize = 0;
    proof {
        assert(pairs_map(pairs_view(out@)) =~= Map::empty());
    }
    while k < found.len()
        invariant
            k <= found.len(),
            fv == found_view(found@),
            names_unique(pairs_view(out@)),
            pairs_map(pairs_view(out@)) == inventory_of(fv.take(k as int)),
        decreases found.len() - k,
    {
        proof {
            assert(fv.take(k as int + 1).drop_last() =~= fv.take(k as int));
        }
        match &found[k].1 {
            Some(version) => {
                upsert(&mut out, found[k].0.clone(), version.clone());
            },
            None => {},
        }
        k += 1;
    }
    assert(fv.take(k as int) =~= fv);
    out
}

/// The plugins advertised are exactly those for which some artifact was
/// found whose `get-version` export answered.
pub proof fn lemma_inventory_names(found: Seq<(Seq<char>, Option<Seq<char>>)>)
    ensures
        inventory_of(found).dom() == Set::new(
            |n: Seq<char>| exists|j: int| 0 <= j < found.len() && found[j].0 == n && found[j].1 is Some,
        ),
    decreases found.len(),
{
    let s = Set::new(
        |n: Seq<char>| exists|j: int| 0 <= j < found.len() && found[j].0 == n && found[j].1 is Some,
    );
    if found.len() > 0 {
        let init = found.drop_last();
        lemma_inventory_names(init);
        assert forall|n: Seq<char>| #[trigger] inventory_of(found).dom().contains(n) <==> s.contains(n) by {
            if inventory_of(init).dom().contains(n) {
                let j = choose|j: int| 0 <= j < init.len() && init[j].0 == n && init[j].1 is Some;
                assert(found[j] == init[j]);
            }
            if s.contains(n) {
                let j = choose|j: int| 0 <= j < found.len() && found[j].0 == n && found[j].1 is Some;
                if j < init.len() {
                    assert(init[j] == found[j]);
                }
            }
        }
        assert(inventory_of(found).dom() =~= s);
    } else {
        assert(inventory_of(found).dom() =~= s);
    }
}

} // verus!
