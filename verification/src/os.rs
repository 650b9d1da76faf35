//! OS identity resolution.
//!
//! An embedded platform is reported as "Android" with its version when
//! one resolves from the platform properties. Otherwise the standard
//! key-value release files are tried, then the legacy per-distribution
//! files, then the bare version file; when every source fails the
//! identity degrades to the literal "Unknown Linux", never an error.

use vstd::prelude::*;

use crate::text::{
    find_line_with_prefix, first_with_prefix, lines_spec, replace_pair, replace_pair_spec,
    split_lines, split_once_char, split_once_spec, str_eq, to_owned_string, trim, trim_char,
    trim_char_spec, trim_spec, view_opt, views_of,
};

verus! {

/// A release-file value with its surrounding quote runs stripped.
pub open spec fn strip_quotes(s: Seq<char>) -> Seq<char> {
    trim_char_spec(s, '"')
}

/// The PRETTY_NAME, NAME and VERSION_ID fields of a key-value release
/// file, each quoted value unquoted; a later occurrence of a field
/// overrides an earlier one.
pub open spec fn release_fields(lines: Seq<Seq<char>>) -> (
    Option<Seq<char>>,
    Option<Seq<char>>,
    Option<Seq<char>>,
)
    decreases lines.len(),
{
    if lines.len() == 0 {
        (None, None, None)
    } else {
        let prev = release_fields(lines.drop_last());
        match split_once_spec(lines.last(), '=') {
            Some(kv) => {
                let value = strip_quotes(kv.1);
                if kv.0 == "PRETTY_NAME"@ {
                    (Some(value), prev.1, prev.2)
                } else if kv.0 == "NAME"@ {
                    (prev.0, Some(value), prev.2)
                } else if kv.0 == "VERSION_ID"@ {
                    (prev.0, prev.1, Some(value))
                } else {
                    prev
                }
            },
            None => prev,
        }
    }
}

/// Which field combination wins: PRETTY_NAME outright; else NAME with
/// VERSION_ID appended; else NAME alone; else a placeholder carrying
/// VERSION_ID; else nothing.
pub open spec fn release_pick(
    fields: (Option<Seq<char>>, Option<Seq<char>>, Option<Seq<char>>),
) -> Option<Seq<char>> {
    if fields.0 is Some {
        fields.0
    } else if fields.1 is Some {
        match fields.2 {
            Some(v) => Some(fields.1->0 + " "@ + v),
            None => fields.1,
        }
    } else if fields.2 is Some {
        Some("Unknown OS "@ + fields.2->0)
    } else {
        None
    }
}

/// Escaped sequences collapse in the chosen value: a literal
/// backslash-n pair becomes a space, a literal backslash-quote pair
/// vanishes.
pub open spec fn collapse_escapes(s: Seq<char>) -> Seq<char> {
    replace_pair_spec(replace_pair_spec(s, '\\', 'n', Some(' ')), '\\', '"', None)
}

/// What a standard key-value release file parses to: the winning field
/// combination with escapes collapsed, when it is nonempty.
pub open spec fn standard_release_spec(content: Seq<char>) -> Option<Seq<char>> {
    match release_pick(release_fields(lines_spec(content))) {
        Some(x) => {
            let y = collapse_escapes(x);
            if y.len() > 0 {
                Some(y)
            } else {
                None
            }
        },
        None => None,
    }
}

/// Parses a standard key-value release file, as
/// `standard_release_spec` says.
pub fn parse_standard_release(content: &str) -> (r: Option<String>)
    ensures
        view_opt(r) == standard_release_spec(content@),
{
    let lines = split_lines(content);
    let ghost lv = views_of(lines@);
    let n = lines.len();
    let mut pretty: Option<String> = None;
    let mut name: Option<String> = None;
    let mut version_id: Option<String> = None;
    let mut i: usize = 0;
    proof {
        assert(lv.take(0) =~= Seq::<Seq<char>>::empty());
    }
    while i < n
        invariant
            n == lines@.len(),
            lv == views_of(lines@),
            i <= n,
            (view_opt(pretty), view_opt(name), view_opt(version_id)) == release_fields(
                lv.take(i as int),
            ),
        decreases n - i,
    {
        proof {
            assert(lv.take(i as int + 1).drop_last() =~= lv.take(i as int));
            assert(lv.take(i as int + 1).last() == lv[i as int]);
        }
        match split_once_char(lines[i].as_str(), '=') {
            Some((k, rest)) => {
                let value = trim_char(rest, '"');
                if str_eq(k, "PRETTY_NAME") {
                    pretty = Some(to_owned_string(value));
                } else if str_eq(k, "NAME") {
                    name = Some(to_owned_string(value));
                } else if str_eq(k, "VERSION_ID") {
                    version_id = Some(to_owned_string(value));
                }
            },
            None => {},
        }
        i = i + 1;
    }
    proof {
        assert(lv.take(i as int) =~= lv);
    }
    let picked: Option<String> = match pretty {
        Some(x) => Some(x),
        None => match name {
            Some(nm) => match version_id {
                Some(vid) => {
                    let mut s = nm;
                    s.append(" ");
                    s.append(vid.as_str());
                    Some(s)
                },
                None => Some(nm),
            },
            None => match version_id {
                Some(vid) => {
                    let mut s = to_owned_string("Unknown OS ");
                    s.append(vid.as_str());
                    Some(s)
                },
                None => None,
            },
        },
    };
    match picked {
        Some(x) => {
            let spaced = replace_pair(x.as_str(), '\\', 'n', Some(' '));
            let collapsed = replace_pair(spaced.as_str(), '\\', '"', None);
            if collapsed.as_str().unicode_len() > 0 {
                Some(collapsed)
            } else {
                None
            }
        },
        None => None,
    }
}

/// What a legacy release file parses to: the unquoted value of the
/// first DISTRIB_DESCRIPTION line, else the file's first line, when
/// nonempty.
pub open spec fn legacy_release_spec(content: Seq<char>) -> Option<Seq<char>> {
    let lines = lines_spec(content);
    let primary = match first_with_prefix(lines, "DISTRIB_DESCRIPTION"@) {
        Some(l) => match split_once_spec(l, '=') {
            Some(kv) => Some(strip_quotes(kv.1)),
            None => None,
        },
        None => None,
    };
    let chosen = match primary {
        Some(x) => Some(x),
        None => if lines.len() > 0 {
            Some(lines[0])
        } else {
            None
        },
    };
    match chosen {
        Some(x) => if x.len() > 0 {
            Some(x)
        } else {
            None
        },
        None => None,
    }
}

/// Parses a legacy release file, as `legacy_release_spec` says.
pub fn parse_legacy_release(content: &str) -> (r: Option<String>)
    ensures
        view_opt(r) == legacy_release_spec(content@),
{
    let lines = split_lines(content);
    let primary: Option<String> = match find_line_with_prefix(&lines, "DISTRIB_DESCRIPTION") {
        Some(i) => match split_once_char(lines[i].as_str(), '=') {
            Some((_k, rest)) => Some(to_owned_string(trim_char(rest, '"'))),
            None => None,
        },
        None => None,
    };
    let chosen: Option<String> = match primary {
        Some(x) => Some(x),
        None => if lines.len() > 0 {
            Some(to_owned_string(lines[0].as_str()))
        } else {
            None
        },
    };
    match chosen {
        Some(x) => {
            if x.as_str().unicode_len() > 0 {
                Some(x)
            } else {
                None
            }
        },
        None => None,
    }
}

/// What a platform property file yields for `key`: the first line
/// beginning with `key`, its value after the first equals sign,
/// trimmed and unquoted, when nonempty.
pub open spec fn prop_spec(content: Seq<char>, key: Seq<char>) -> Option<Seq<char>> {
    match first_with_prefix(lines_spec(content), key) {
        Some(l) => match split_once_spec(l, '=') {
            Some(kv) => {
                let v = trim_char_spec(trim_spec(kv.1), '"');
                if v.len() > 0 {
                    Some(v)
                } else {
                    None
                }
            },
            None => None,
        },
        None => None,
    }
}

/// Looks `key` up in one property file, as `prop_spec` says.
pub fn parse_prop(content: &str, key: &str) -> (r: Option<String>)
    ensures
        view_opt(r) == prop_spec(content@, key@),
{
    let lines = split_lines(content);
    match find_line_with_prefix(&lines, key) {
        Some(i) => match split_once_char(lines[i].as_str(), '=') {
            Some((_k, rest)) => {
                let v = trim_char(trim(rest), '"');
                if v.unicode_len() > 0 {
                    Some(to_owned_string(v))
                } else {
                    None
                }
            },
            None => None,
        },
        None => None,
    }
}

/// The first of the property files that yields a value for `key`.
pub open spec fn first_file_prop(files: Seq<Seq<char>>, key: Seq<char>) -> Option<Seq<char>>
    decreases files.len(),
{
    if files.len() == 0 {
        None
    } else if prop_spec(files[0], key) is Some {
        prop_spec(files[0], key)
    } else {
        first_file_prop(files.drop_first(), key)
    }
}

/// What a property lookup yields: the property helper's own output
/// when nonempty after trimming, else the first property file that
/// holds the key.
pub open spec fn property_spec(
    direct: Option<Seq<char>>,
    files: Seq<Seq<char>>,
    key: Seq<char>,
) -> Option<Seq<char>> {
    match direct {
        Some(s) => if trim_spec(s).len() > 0 {
            Some(trim_spec(s))
        } else {
            first_file_prop(files, key)
        },
        None => first_file_prop(files, key),
    }
}

/// Resolves one platform property, as `property_spec` says. `direct`
/// is the property helper's raw output, `files` the readable property
/// files in order.
pub fn get_property(direct: &Option<String>, files: &Vec<String>, key: &str) -> (r: Option<
    String,
>)
    ensures
        view_opt(r) == property_spec(view_opt(*direct), views_of(files@), key@),
{
    if let Some(s) = direct {
        let t = trim(s.as_str());
        if t.unicode_len() > 0 {
            return Some(to_owned_string(t));
        }
    }
    let ghost fv = views_of(files@);
    let n = files.len();
    let mut i: usize = 0;
    proof {
        assert(fv.skip(0) =~= fv);
    }
    while i < n
        invariant
            n == files@.len(),
            fv == views_of(files@),
            i <= n,
            first_file_prop(fv, key@) == first_file_prop(fv.skip(i as int), key@),
            property_spec(view_opt(*direct), fv, key@) == first_file_prop(fv, key@),
        decreases n - i,
    {
        proof {
            assert(fv.skip(i as int)[0] == fv[i as int]);
            assert(fv.skip(i as int).drop_first() =~= fv.skip(i as int + 1));
            assert(fv[i as int] == files@[i as int]@);
        }
        if let Some(v) = parse_prop(files[i].as_str(), key) {
            return Some(v);
        }
        i = i + 1;
    }
    proof {
        assert(fv.skip(i as int) =~= Seq::<Seq<char>>::empty());
    }
    None
}

/// The version the platform reports, from the primary key and its two
/// fallbacks.
pub open spec fn android_version_spec(
    d1: Option<Seq<char>>,
    d2: Option<Seq<char>>,
    d3: Option<Seq<char>>,
    files: Seq<Seq<char>>,
) -> Option<Seq<char>> {
    if property_spec(d1, files, "ro.build.version.release"@) is Some {
        property_spec(d1, files, "ro.build.version.release"@)
    } else if property_spec(d2, files, "ro.system.build.version.release"@) is Some {
        property_spec(d2, files, "ro.system.build.version.release"@)
    } else {
        property_spec(d3, files, "ro.build.version.sdk"@)
    }
}

/// Resolves the platform version string: the release key, then the
/// system release key, then the SDK key. Each `direct` argument is the
/// property helper's raw output for that key.
pub fn android_version(
    direct_release: &Option<String>,
    direct_system: &Option<String>,
    direct_sdk: &Option<String>,
    files: &Vec<String>,
) -> (r: Option<String>)
    ensures
        view_opt(r) == android_version_spec(
            view_opt(*direct_release),
            view_opt(*direct_system),
            view_opt(*direct_sdk),
            views_of(files@),
        ),
{
    if let Some(v) = get_property(direct_release, files, "ro.build.version.release") {
        return Some(v);
    }
    if let Some(v) = get_property(direct_system, files, "ro.system.build.version.release") {
        return Some(v);
    }
    get_property(direct_sdk, files, "ro.build.version.sdk")
}

/// The platform identity string: "Android" with the version appended
/// when one resolved, bare "Android" otherwise.
pub open spec fn android_spec(version: Option<Seq<char>>) -> Seq<char> {
    match version {
        Some(v) => "Android "@ + v,
        None => "Android"@,
    }
}

/// The platform branch of OS detection: nothing on a generic system,
/// the platform identity string on an embedded one.
pub fn detect_android(is_android: bool, version: &Option<String>) -> (r: Option<String>)
    ensures
        view_opt(r) == if is_android {
            Some(android_spec(view_opt(*version)))
        } else {
            None::<Seq<char>>
        },
{
    if !is_android {
        return None;
    }
    match version {
        Some(v) => {
            let mut s = to_owned_string("Android ");
            s.append(v.as_str());
            Some(s)
        },
        None => Some(to_owned_string("Android")),
    }
}

/// The raw values the OS identity sources produced, `None` or empty
/// where a source was unavailable.
pub struct OsSources {
    /// Whether the platform markers say this is an embedded system.
    pub android: bool,
    /// The resolved platform version, when the platform branch
    /// applies.
    pub android_version: Option<String>,
    /// Contents of the standard key-value release files, readable ones
    /// in order.
    pub standard_files: Vec<String>,
    /// Contents of the legacy release files, readable ones in order.
    pub legacy_files: Vec<String>,
    /// Content of the bare version file.
    pub debian_version: Option<String>,
}

/// The first standard release file that parses to a nonempty identity.
pub open spec fn first_standard(files: Seq<Seq<char>>) -> Option<Seq<char>>
    decreases files.len(),
{
    if files.len() == 0 {
        None
    } else if standard_release_spec(files[0]) is Some {
        standard_release_spec(files[0])
    } else {
        first_standard(files.drop_first())
    }
}

/// The first legacy release file that parses to a nonempty identity.
pub open spec fn first_legacy(files: Seq<Seq<char>>) -> Option<Seq<char>>
    decreases files.len(),
{
    if files.len() == 0 {
        None
    } else if legacy_release_spec(files[0]) is Some {
        legacy_release_spec(files[0])
    } else {
        first_legacy(files.drop_first())
    }
}

/// What the whole OS identity pipeline yields from the raw sources.
pub open spec fn os_info_spec(s: OsSources) -> Seq<char> {
    if s.android {
        android_spec(view_opt(s.android_version))
    } else {
        match first_standard(views_of(s.standard_files@)) {
            Some(x) => x,
            None => match first_legacy(views_of(s.legacy_files@)) {
                Some(x) => x,
                None => match view_opt(s.debian_version) {
                    Some(v) => "Debian "@ + trim_spec(v),
                    None => "Unknown Linux"@,
                },
            },
        }
    }
}

/// A standard release file never parses to an empty identity.
proof fn lemma_first_standard_nonempty(files: Seq<Seq<char>>)
    ensures
        first_standard(files) matches Some(x) ==> x.len() > 0,
    decreases files.len(),
{
    if files.len() > 0 {
        lemma_first_standard_nonempty(files.drop_first());
    }
}

/// A legacy release file never parses to an empty identity.
proof fn lemma_first_legacy_nonempty(files: Seq<Seq<char>>)
    ensures
        first_legacy(files) matches Some(x) ==> x.len() > 0,
    decreases files.len(),
{
    if files.len() > 0 {
        lemma_first_legacy_nonempty(files.drop_first());
    }
}

/// Resolves the OS identity: the platform branch, then the standard
/// release files, then the legacy files, then the bare version file,
/// and the explicit "Unknown Linux" placeholder when everything
/// failed. The result is never empty.
pub fn get_os_info(sources: &OsSources) -> (r: String)
    ensures
        r@ == os_info_spec(*sources),
        r@.len() > 0,
{
    proof {
        reveal_strlit("Android ");
        reveal_strlit("Android");
        reveal_strlit("Debian ");
        reveal_strlit("Unknown Linux");
        lemma_first_standard_nonempty(views_of(sources.standard_files@));
        lemma_first_legacy_nonempty(views_of(sources.legacy_files@));
    }
    if sources.android {
        let identity = detect_android(true, &sources.android_version);
        return identity.unwrap();
    }
    let ghost sv = views_of(sources.standard_files@);
    let n = sources.standard_files.len();
    let mut i: usize = 0;
    proof {
        assert(sv.skip(0) =~= sv);
    }
    while i < n
        invariant
            n == sources.standard_files@.len(),
            sv == views_of(sources.standard_files@),
            i <= n,
            first_standard(sv) == first_standard(sv.skip(i as int)),
            !sources.android,
        decreases n - i,
    {
        proof {
            assert(sv.skip(i as int)[0] == sv[i as int]);
            assert(sv.skip(i as int).drop_first() =~= sv.skip(i as int + 1));
            assert(sv[i as int] == sources.standard_files@[i as int]@);
        }
        if let Some(v) = parse_standard_release(sources.standard_files[i].as_str()) {
            return v;
        }
        i = i + 1;
    }
    proof {
        assert(sv.skip(i as int) =~= Seq::<Seq<char>>::empty());
    }
    let ghost gv = views_of(sources.legacy_files@);
    let m = sources.legacy_files.len();
    let mut j: usize = 0;
    proof {
        assert(gv.skip(0) =~= gv);
    }
    while j < m
        invariant
            m == sources.legacy_files@.len(),
            gv == views_of(sources.legacy_files@),
            j <= m,
            first_legacy(gv) == first_legacy(gv.skip(j as int)),
            first_standard(views_of(sources.standard_files@)) is None,
            first_legacy(gv) matches Some(x) ==> x.len() > 0,
            !sources.android,
        decreases m - j,
    {
        proof {
            assert(gv.skip(j as int)[0] == gv[j as int]);
            assert(gv.skip(j as int).drop_first() =~= gv.skip(j as int + 1));
            assert(gv[j as int] == sources.legacy_files@[j as int]@);
        }
        if let Some(v) = parse_legacy_release(sources.legacy_files[j].as_str()) {
            return v;
        }
        j = j + 1;
    }
    proof {
        assert(gv.skip(j as int) =~= Seq::<Seq<char>>::empty());
    }
    match &sources.debian_version {
        Some(v) => {
            let mut s = to_owned_string("Debian ");
            s.append(trim(v.as_str()));
            s
        },
        None => to_owned_string("Unknown Linux"),
    }
}

} // verus!
