//! Device-identity resolution.
//!
//! A vendor/product pair is sought from six sources in a fixed priority
//! order: platform marketing-name properties, desktop firmware table
//! fields, the embedded device-tree model, generic platform property
//! files, the firmware board name, and the processor-info pseudo-file.
//! Every raw value passes the shared candidate normalization; the first
//! source with either component valid wins, and the two components are
//! merged without duplicating a vendor prefix.

use vstd::prelude::*;

use crate::probe::{normalize_candidate, normalize_spec, valid_candidate};
use crate::text::{
    first_with_prefix, find_line_with_prefix, lines_spec, split_char, split_char_spec, split_lines,
    split_once_char, split_once_spec, starts_with_str, strip_prefix_all, strip_prefix_all_spec,
    to_owned_string, trim, trim_spec, view_opt, views_of,
};

verus! {

/// The raw values of the six device-identity sources, `None` where the
/// underlying file or helper was unavailable.
pub struct DeviceSources {
    /// Output of the platform property helper for the manufacturer
    /// key.
    pub prop_manufacturer: Option<String>,
    /// Output of the platform property helper for the model key.
    pub prop_model: Option<String>,
    /// Raw firmware table fields, each from the first readable of its
    /// two paths.
    pub dmi_sys_vendor: Option<String>,
    /// Secondary firmware vendor field.
    pub dmi_board_vendor: Option<String>,
    /// Primary firmware product field.
    pub dmi_product_name: Option<String>,
    /// Secondary firmware product field.
    pub dmi_product_version: Option<String>,
    /// Firmware board-name field.
    pub dmi_board_name: Option<String>,
    /// Raw content of the device-tree model file.
    pub device_tree: Option<String>,
    /// Raw contents of the platform property files, readable ones in
    /// order.
    pub build_props: Vec<String>,
    /// Raw content of the processor-info pseudo-file.
    pub cpuinfo: Option<String>,
}

/// The normalized value of a raw candidate, when it is valid.
pub open spec fn norm_opt(o: Option<Seq<char>>) -> Option<Seq<char>> {
    match o {
        Some(x) => if valid_candidate(x) {
            Some(normalize_spec(x))
        } else {
            None
        },
        None => None,
    }
}

/// The first valid of two raw firmware-table reads, normalized.
pub open spec fn dmi_spec(primary: Option<Seq<char>>, fallback: Option<Seq<char>>) -> Option<
    Seq<char>,
> {
    if norm_opt(primary) is Some {
        norm_opt(primary)
    } else {
        norm_opt(fallback)
    }
}

/// Picks the first valid of a firmware field's primary and secondary
/// reads, normalized.
pub fn read_dmi(primary: &Option<String>, fallback: &Option<String>) -> (r: Option<String>)
    ensures
        view_opt(r) == dmi_spec(view_opt(*primary), view_opt(*fallback)),
{
    if let Some(x) = primary {
        let v = normalize_candidate(x.as_str());
        if v.as_str().unicode_len() > 0 {
            return Some(v);
        }
    }
    if let Some(x) = fallback {
        let v = normalize_candidate(x.as_str());
        if v.as_str().unicode_len() > 0 {
            return Some(v);
        }
    }
    None
}

/// Underscores become spaces in platform property output.
pub open spec fn underscores_to_spaces(s: Seq<char>) -> Seq<char> {
    s.map_values(
        |c: char|
            if c == '_' {
                ' '
            } else {
                c
            },
    )
}

/// What a platform property helper's output yields: trimmed,
/// underscores opened to spaces, then normalized; nothing when
/// invalid.
pub open spec fn prop_output_spec(s: Seq<char>) -> Option<Seq<char>> {
    norm_opt(Some(underscores_to_spaces(trim_spec(s))))
}

/// Parses the platform property helper's raw output.
pub fn parse_prop_output(raw: &Option<String>) -> (r: Option<String>)
    ensures
        view_opt(r) == match view_opt(*raw) {
            Some(s) => prop_output_spec(s),
            None => None,
        },
{
    match raw {
        Some(s) => {
            let t = trim(s.as_str());
            let n = t.unicode_len();
            let mut opened = String::new();
            let mut i: usize = 0;
            while i < n
                invariant
                    n == t@.len(),
                    i <= n,
                    opened@.len() == i,
                    forall|k: int|
                        0 <= k < i ==> opened@[k] == (if t@[k] == '_' {
                            ' '
                        } else {
                            t@[k]
                        }),
                decreases n - i,
            {
                let c = t.get_char(i);
                if c == '_' {
                    opened.push(' ');
                } else {
                    opened.push(c);
                }
                i = i + 1;
            }
            proof {
                assert(opened@ =~= underscores_to_spaces(t@));
            }
            let v = normalize_candidate(opened.as_str());
            if v.as_str().unicode_len() > 0 {
                Some(v)
            } else {
                None
            }
        },
        None => None,
    }
}

/// What the device-tree model file yields: the normalized model
/// string, split at its first space into a vendor prefix (with any
/// repeated literal "Raspberry Pi" prefix removed, since that source
/// spells the brand redundantly) and the model remainder.
pub open spec fn device_tree_spec(content: Option<Seq<char>>) -> Option<
    (Option<Seq<char>>, Seq<char>),
> {
    match content {
        Some(raw) => {
            if valid_candidate(raw) {
                let cleaned = normalize_spec(raw);
                match split_once_spec(cleaned, ' ') {
                    Some(p) => {
                        let vc = trim_spec(strip_prefix_all_spec(p.0, "Raspberry Pi"@));
                        let mc = trim_spec(p.1);
                        Some(
                            (
                                if vc.len() > 0 {
                                    Some(vc)
                                } else {
                                    None
                                },
                                mc,
                            ),
                        )
                    },
                    None => Some((None, cleaned)),
                }
            } else {
                None
            }
        },
        None => None,
    }
}

/// Reads the device-tree model, as `device_tree_spec` says.
pub fn read_device_tree(content: &Option<String>) -> (r: Option<(Option<String>, String)>)
    ensures
        match r {
            Some(p) => device_tree_spec(view_opt(*content)) == Some((view_opt(p.0), p.1@)),
            None => device_tree_spec(view_opt(*content)) is None,
        },
{
    match content {
        Some(raw) => {
            let cleaned = normalize_candidate(raw.as_str());
            if cleaned.as_str().unicode_len() == 0 {
                return None;
            }
            match split_once_char(cleaned.as_str(), ' ') {
                Some((v, m)) => {
                    let vc = trim(strip_prefix_all(v, "Raspberry Pi"));
                    let mc = trim(m);
                    let vendor = if vc.unicode_len() > 0 {
                        Some(to_owned_string(vc))
                    } else {
                        None
                    };
                    Some((vendor, to_owned_string(mc)))
                },
                None => Some((None, cleaned)),
            }
        },
        None => None,
    }
}

/// The value a property line yields for `key`: the piece between the
/// first and second equals signs, normalized, when the line begins
/// with `key` and that piece is valid.
pub open spec fn prop_line_value(line: Seq<char>, key: Seq<char>) -> Option<Seq<char>> {
    if key.is_prefix_of(line) {
        let ps = split_char_spec(line, '=');
        if ps.len() >= 2 {
            norm_opt(Some(ps[1]))
        } else {
            None
        }
    } else {
        None
    }
}

/// The first line of `lines` that yields a value for `key`.
pub open spec fn scan_prop_lines(lines: Seq<Seq<char>>, key: Seq<char>) -> Option<Seq<char>>
    decreases lines.len(),
{
    if lines.len() == 0 {
        None
    } else if prop_line_value(lines[0], key) is Some {
        prop_line_value(lines[0], key)
    } else {
        scan_prop_lines(lines.drop_first(), key)
    }
}

/// The first of `files` whose lines yield a value for `key`.
pub open spec fn scan_prop_files(files: Seq<Seq<char>>, key: Seq<char>) -> Option<Seq<char>>
    decreases files.len(),
{
    if files.len() == 0 {
        None
    } else if scan_prop_lines(lines_spec(files[0]), key) is Some {
        scan_prop_lines(lines_spec(files[0]), key)
    } else {
        scan_prop_files(files.drop_first(), key)
    }
}

/// Scans the lines of one property file for `key`.
fn scan_lines_for_key(lines: &Vec<String>, key: &str) -> (r: Option<String>)
    ensures
        view_opt(r) == scan_prop_lines(views_of(lines@), key@),
{
    let ghost lv = views_of(lines@);
    let n = lines.len();
    let mut i: usize = 0;
    proof {
        assert(lv.skip(0) =~= lv);
    }
    while i < n
        invariant
            n == lines@.len(),
            lv == views_of(lines@),
            i <= n,
            scan_prop_lines(lv, key@) == scan_prop_lines(lv.skip(i as int), key@),
        decreases n - i,
    {
        proof {
            assert(lv.skip(i as int)[0] == lv[i as int]);
            assert(lv.skip(i as int).drop_first() =~= lv.skip(i as int + 1));
        }
        let line = &lines[i];
        if starts_with_str(line.as_str(), key) {
            let pieces = split_char(line.as_str(), '=');
            if pieces.len() >= 2 {
                proof {
                    assert(views_of(pieces@)[1] == pieces@[1]@);
                }
                let v = normalize_candidate(pieces[1].as_str());
                if v.as_str().unicode_len() > 0 {
                    proof {
                        assert(prop_line_value(lv[i as int], key@) == Some(v@));
                    }
                    return Some(v);
                }
            }
        }
        proof {
            assert(prop_line_value(lv[i as int], key@) is None);
        }
        i = i + 1;
    }
    proof {
        assert(lv.skip(i as int) =~= Seq::<Seq<char>>::empty());
    }
    None
}

/// Scans the platform property files in order for `key`.
pub fn scan_build_props(contents: &Vec<String>, key: &str) -> (r: Option<String>)
    ensures
        view_opt(r) == scan_prop_files(views_of(contents@), key@),
{
    let ghost fv = views_of(contents@);
    let n = contents.len();
    let mut i: usize = 0;
    proof {
        assert(fv.skip(0) =~= fv);
    }
    while i < n
        invariant
            n == contents@.len(),
            fv == views_of(contents@),
            i <= n,
            scan_prop_files(fv, key@) == scan_prop_files(fv.skip(i as int), key@),
        decreases n - i,
    {
        proof {
            assert(fv.skip(i as int)[0] == fv[i as int]);
            assert(fv.skip(i as int).drop_first() =~= fv.skip(i as int + 1));
        }
        let lines = split_lines(contents[i].as_str());
        if let Some(v) = scan_lines_for_key(&lines, key) {
            return Some(v);
        }
        i = i + 1;
    }
    proof {
        assert(fv.skip(i as int) =~= Seq::<Seq<char>>::empty());
    }
    None
}

/// The value the processor-info file yields for a key: the piece
/// between the first and second colons of the first line that begins
/// with the key, normalized.
pub open spec fn cpuinfo_field_spec(lines: Seq<Seq<char>>, key: Seq<char>) -> Option<Seq<char>> {
    match first_with_prefix(lines, key) {
        Some(l) => {
            let ps = split_char_spec(l, ':');
            if ps.len() >= 2 {
                norm_opt(Some(ps[1]))
            } else {
                None
            }
        },
        None => None,
    }
}

/// Looks one key up in the processor-info lines.
fn cpuinfo_field(lines: &Vec<String>, key: &str) -> (r: Option<String>)
    ensures
        view_opt(r) == cpuinfo_field_spec(views_of(lines@), key@),
{
    match find_line_with_prefix(lines, key) {
        Some(i) => {
            let pieces = split_char(lines[i].as_str(), ':');
            if pieces.len() >= 2 {
                proof {
                    assert(views_of(pieces@)[1] == pieces@[1]@);
                }
                let v = normalize_candidate(pieces[1].as_str());
                if v.as_str().unicode_len() > 0 {
                    Some(v)
                } else {
                    None
                }
            } else {
                None
            }
        },
        None => None,
    }
}

/// The vendor/product pair one source contributes to the chain.
pub open spec fn pair_view(p: (Option<String>, Option<String>)) -> (
    Option<Seq<char>>,
    Option<Seq<char>>,
) {
    (view_opt(p.0), view_opt(p.1))
}

/// The views of a chain of vendor/product pairs.
pub open spec fn pair_views(v: Seq<(Option<String>, Option<String>)>) -> Seq<
    (Option<Seq<char>>, Option<Seq<char>>),
> {
    v.map_values(|p: (Option<String>, Option<String>)| pair_view(p))
}

impl DeviceSources {
    /// The six sources' contributions, in priority order: marketing
    /// properties, firmware vendor and product fields, the device
    /// tree, the property files, the firmware board name, and the
    /// processor info.
    pub open spec fn chain(&self) -> Seq<(Option<Seq<char>>, Option<Seq<char>>)> {
        seq![
            (
                match view_opt(self.prop_manufacturer) {
                    Some(s) => prop_output_spec(s),
                    None => None,
                },
                match view_opt(self.prop_model) {
                    Some(s) => prop_output_spec(s),
                    None => None,
                },
            ),
            (
                dmi_spec(view_opt(self.dmi_sys_vendor), view_opt(self.dmi_board_vendor)),
                dmi_spec(view_opt(self.dmi_product_name), view_opt(self.dmi_product_version)),
            ),
            (
                match device_tree_spec(view_opt(self.device_tree)) {
                    Some(p) => p.0,
                    None => None,
                },
                match device_tree_spec(view_opt(self.device_tree)) {
                    Some(p) => Some(p.1),
                    None => None,
                },
            ),
            (
                scan_prop_files(views_of(self.build_props@), "ro.product.manufacturer="@),
                scan_prop_files(views_of(self.build_props@), "ro.product.model="@),
            ),
            (dmi_spec(view_opt(self.dmi_board_name), None), None),
            (
                match view_opt(self.cpuinfo) {
                    Some(c) => cpuinfo_field_spec(lines_spec(c), "Hardware"@),
                    None => None,
                },
                match view_opt(self.cpuinfo) {
                    Some(c) => cpuinfo_field_spec(lines_spec(c), "model name"@),
                    None => None,
                },
            ),
        ]
    }
}

/// Builds the six normalized vendor/product pairs from the raw
/// sources, in priority order.
pub fn device_sources(raw: &DeviceSources) -> (r: Vec<(Option<String>, Option<String>)>)
    ensures
        pair_views(r@) == raw.chain(),
{
    let mut out: Vec<(Option<String>, Option<String>)> = Vec::new();
    out.push((parse_prop_output(&raw.prop_manufacturer), parse_prop_output(&raw.prop_model)));
    out.push(
        (
            read_dmi(&raw.dmi_sys_vendor, &raw.dmi_board_vendor),
            read_dmi(&raw.dmi_product_name, &raw.dmi_product_version),
        ),
    );
    match read_device_tree(&raw.device_tree) {
        Some((v, m)) => {
            out.push((v, Some(m)));
        },
        None => {
            out.push((None, None));
        },
    }
    out.push(
        (
            scan_build_props(&raw.build_props, "ro.product.manufacturer="),
            scan_build_props(&raw.build_props, "ro.product.model="),
        ),
    );
    out.push((read_dmi(&raw.dmi_board_name, &None), None));
    match &raw.cpuinfo {
        Some(c) => {
            let lines = split_lines(c.as_str());
            out.push((cpuinfo_field(&lines, "Hardware"), cpuinfo_field(&lines, "model name")));
        },
        None => {
            out.push((None, None));
        },
    }
    proof {
        assert(pair_views(out@) =~= raw.chain());
    }
    out
}

/// The pair of the first source with either component present.
pub open spec fn select_source_spec(s: Seq<(Option<Seq<char>>, Option<Seq<char>>)>) -> (
    Option<Seq<char>>,
    Option<Seq<char>>,
)
    decreases s.len(),
{
    if s.len() == 0 {
        (None, None)
    } else if s[0].0 is Some || s[0].1 is Some {
        s[0]
    } else {
        select_source_spec(s.drop_first())
    }
}

/// Walks the chain in order and keeps the first source that produced
/// anything.
pub fn select_device_source(sources: &Vec<(Option<String>, Option<String>)>) -> (r: (
    Option<String>,
    Option<String>,
))
    ensures
        pair_view(r) == select_source_spec(pair_views(sources@)),
{
    let ghost sv = pair_views(sources@);
    let n = sources.len();
    let mut i: usize = 0;
    proof {
        assert(sv.skip(0) =~= sv);
    }
    while i < n
        invariant
            n == sources@.len(),
            sv == pair_views(sources@),
            i <= n,
            select_source_spec(sv) == select_source_spec(sv.skip(i as int)),
        decreases n - i,
    {
        proof {
            assert(sv.skip(i as int)[0] == sv[i as int]);
            assert(sv.skip(i as int).drop_first() =~= sv.skip(i as int + 1));
        }
        let found = match &sources[i] {
            (Some(_), _) => true,
            (_, Some(_)) => true,
            _ => false,
        };
        if found {
            let pair = &sources[i];
            let vendor = match &pair.0 {
                Some(v) => Some(to_owned_string(v.as_str())),
                None => None,
            };
            let product = match &pair.1 {
                Some(p) => Some(to_owned_string(p.as_str())),
                None => None,
            };
            return (vendor, product);
        }
        i = i + 1;
    }
    proof {
        assert(sv.skip(i as int) =~= Seq::<(Option<Seq<char>>, Option<Seq<char>>)>::empty());
    }
    (None, None)
}

/// How a resolved vendor and product merge into one device string:
/// a product that already carries the vendor prefix stands alone,
/// otherwise the two are joined with a space; a single component
/// stands alone; with neither, the explicit placeholder.
pub open spec fn combine_spec(vendor: Option<Seq<char>>, product: Option<Seq<char>>) -> Seq<
    char,
> {
    match (vendor, product) {
        (Some(v), Some(p)) => if v.is_prefix_of(p) {
            p
        } else {
            v + " "@ + p
        },
        (Some(v), None) => v,
        (None, Some(p)) => p,
        (None, None) => "Unknown Device"@,
    }
}

/// Merges a resolved vendor and product, as `combine_spec` says.
pub fn combine_device_identity(vendor: &Option<String>, product: &Option<String>) -> (r: String)
    ensures
        r@ == combine_spec(view_opt(*vendor), view_opt(*product)),
{
    match (vendor, product) {
        (Some(v), Some(p)) => {
            if starts_with_str(p.as_str(), v.as_str()) {
                to_owned_string(p.as_str())
            } else {
                let mut s = to_owned_string(v.as_str());
                s.append(" ");
                s.append(p.as_str());
                s
            }
        },
        (Some(v), None) => to_owned_string(v.as_str()),
        (None, Some(p)) => to_owned_string(p.as_str()),
        (None, None) => to_owned_string("Unknown Device"),
    }
}

/// What the whole device-identity pipeline yields from the raw
/// sources.
pub open spec fn device_info_spec(sources: DeviceSources) -> Seq<char> {
    combine_spec(
        select_source_spec(sources.chain()).0,
        select_source_spec(sources.chain()).1,
    )
}

/// Both slots of a pair are nonempty where they are present.
pub open spec fn pair_nonempty(p: (Option<Seq<char>>, Option<Seq<char>>)) -> bool {
    &&& (p.0 matches Some(v) ==> v.len() > 0)
    &&& (p.1 matches Some(v) ==> v.len() > 0)
}

/// A nonempty normalized candidate carries no whitespace at its ends.
proof fn lemma_normalize_trimmed(s: Seq<char>)
    ensures
        normalize_spec(s).len() > 0 ==> !crate::text::is_space(
            normalize_spec(s)[normalize_spec(s).len() - 1],
        ),
{
    crate::text::lemma_trim_ends(
        crate::probe::strip_nul(crate::probe::strip_bsn(trim_spec(s))),
    );
}

/// The model part after the first space of a value with no trailing
/// whitespace is never all whitespace.
proof fn lemma_model_part_nonempty(cleaned: Seq<char>)
    requires
        cleaned.len() > 0,
        !crate::text::is_space(cleaned[cleaned.len() - 1]),
        split_once_spec(cleaned, ' ') is Some,
    ensures
        trim_spec((split_once_spec(cleaned, ' ')->0).1).len() > 0,
{
    crate::text::lemma_split_once_parts(cleaned, ' ');
    let p = split_once_spec(cleaned, ' ')->0;
    if p.0.len() + 1 == cleaned.len() {
        assert(cleaned[cleaned.len() - 1] == ' ');
        assert(false);
    }
    assert(p.1.len() > 0);
    assert(p.1[p.1.len() - 1] == cleaned[cleaned.len() - 1]);
    crate::text::lemma_trim_keeps_tail(p.1);
}

/// A property scan only ever yields a normalized, nonempty value.
proof fn lemma_scan_lines_nonempty(lines: Seq<Seq<char>>, key: Seq<char>)
    ensures
        scan_prop_lines(lines, key) matches Some(v) ==> v.len() > 0,
    decreases lines.len(),
{
    if lines.len() > 0 {
        lemma_scan_lines_nonempty(lines.drop_first(), key);
    }
}

/// A file scan only ever yields a normalized, nonempty value.
proof fn lemma_scan_files_nonempty(files: Seq<Seq<char>>, key: Seq<char>)
    ensures
        scan_prop_files(files, key) matches Some(v) ==> v.len() > 0,
    decreases files.len(),
{
    if files.len() > 0 {
        lemma_scan_lines_nonempty(lines_spec(files[0]), key);
        lemma_scan_files_nonempty(files.drop_first(), key);
    }
}

/// Every value a source contributes to the chain is nonempty: no
/// source can hand an empty string forward as a success.
proof fn lemma_chain_nonempty(raw: DeviceSources)
    ensures
        forall|k: int| 0 <= k < raw.chain().len() ==> pair_nonempty(#[trigger] raw.chain()[k]),
{
    let ch = raw.chain();
    lemma_scan_files_nonempty(views_of(raw.build_props@), "ro.product.manufacturer="@);
    lemma_scan_files_nonempty(views_of(raw.build_props@), "ro.product.model="@);
    assert forall|k: int| 0 <= k < ch.len() implies pair_nonempty(ch[k]) by {
        if k == 2 {
            match view_opt(raw.device_tree) {
                Some(content) => {
                    if valid_candidate(content) {
                        let cleaned = normalize_spec(content);
                        lemma_normalize_trimmed(content);
                        match split_once_spec(cleaned, ' ') {
                            Some(p) => {
                                lemma_model_part_nonempty(cleaned);
                            },
                            None => {},
                        }
                    }
                },
                None => {},
            }
        }
    }
}

/// The selected pair keeps the chain's nonemptiness.
proof fn lemma_select_nonempty(s: Seq<(Option<Seq<char>>, Option<Seq<char>>)>)
    requires
        forall|k: int| 0 <= k < s.len() ==> pair_nonempty(#[trigger] s[k]),
    ensures
        pair_nonempty(select_source_spec(s)),
    decreases s.len(),
{
    if s.len() == 0 {
    } else if s[0].0 is Some || s[0].1 is Some {
        assert(pair_nonempty(s[0]));
    } else {
        assert(forall|k: int|
            0 <= k < s.drop_first().len() ==> pair_nonempty(#[trigger] s.drop_first()[k]));
        lemma_select_nonempty(s.drop_first());
    }
}

/// Merging nonempty components, or falling to the placeholder, never
/// yields an empty device string.
proof fn lemma_combine_nonempty(vendor: Option<Seq<char>>, product: Option<Seq<char>>)
    requires
        pair_nonempty((vendor, product)),
    ensures
        combine_spec(vendor, product).len() > 0,
{
    reveal_strlit("Unknown Device");
}

/// Resolves the device identity: builds the six sources' candidates,
/// keeps the first source that produced anything, and merges its
/// vendor and product. The result is never empty.
pub fn get_device_info(raw: &DeviceSources) -> (r: String)
    ensures
        r@ == device_info_spec(*raw),
        r@.len() > 0,
{
    proof {
        lemma_chain_nonempty(*raw);
        lemma_select_nonempty(raw.chain());
        lemma_combine_nonempty(
            select_source_spec(raw.chain()).0,
            select_source_spec(raw.chain()).1,
        );
    }
    let chain = device_sources(raw);
    let (vendor, product) = select_device_source(&chain);
    combine_device_identity(&vendor, &product)
}

} // verus!
