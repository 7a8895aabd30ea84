//! Tag paths and tag references.

use vstd::prelude::*;
use crate::error::{Error, OverflowCheck, RinghopperResult};
use crate::primitive::group::{TagGroup, spec_group_name, spec_group_named, spec_group_fourcc, spec_group_from_fourcc, law_fourcc_roundtrip, law_group_name_lookup};
use crate::primitive::data::{ID, Address, spec_u32_at, lemma_id_view_injective, append_bytes};
use crate::endian::{ByteOrder, spec_splice, spec_u32_to_bytes, lemma_u32_roundtrip};
use crate::parse::{SimpleTagData, TagData, fits, into_u32, spec_read_simple_map};
use crate::map::{CacheMap, DomainType, MapReadError, MapView, spec_map_view};
use crate::text::{format_hex, spec_hex_padded};
use vstd::string::StringExecFns;
use crate::primitive::data::lemma_splice_concat;
use vstd::string::StringSliceAdditionalSpecFns;
use vstd::utf8::{valid_utf8, decode_utf8, encode_utf8};
use crate::text::str_from_utf8;
use vstd::string::StrSliceExecFns;
use vstd::std_specs::convert::FromSpecImpl;
use crate::text::{chars_of, chars_eq, string_from_chars, string_push};

verus! {

/// Halo path separator.
pub const HALO_PATH_SEPARATOR: char = '\\';

/// What a character of an input path becomes in a tag path: separators become `\`, upper case ASCII becomes lower
/// case; `None` for characters that are not allowed.
pub open spec fn spec_map_path_char(c: char) -> Option<char> {
    if c == '/' || c == '\\' {
        Some('\\')
    } else if c == ':' || c == '*' || c == '?' || c == '"' || c == '<' || c == '>' || c == '|' {
        None
    } else if (c as u32) < 0x20 || c as u32 == 0x7F {
        None
    } else if 'A' <= c && c <= 'Z' {
        Some(((c as u32) + 0x20) as char)
    } else {
        Some(c)
    }
}

/// The characters of an input path after mapping each character and collapsing repeated separators; `None` if a
/// character is not allowed.
pub open spec fn spec_normalize_path(s: Seq<char>) -> Option<Seq<char>>
    decreases s.len(),
{
    if s.len() == 0 {
        Some(Seq::empty())
    } else {
        match spec_normalize_path(s.drop_last()) {
            None => None,
            Some(prefix) => match spec_map_path_char(s.last()) {
                None => None,
                Some(c) => if c == '\\' && prefix.len() > 0 && prefix.last() == '\\' {
                    Some(prefix)
                } else {
                    Some(prefix.push(c))
                },
            },
        }
    }
}

/// `true` if `p` is already normalized: each character maps to itself and no separator follows another.
pub open spec fn spec_is_normalized(p: Seq<char>) -> bool {
    &&& forall|i: int| 0 <= i < p.len() ==> spec_map_path_char(#[trigger] p[i]) == Some(p[i])
    &&& forall|i: int| 0 < i < p.len() && #[trigger] p[i] == '\\' ==> p[i - 1] != '\\'
}

/// A character that a path character maps to maps to itself.
proof fn lemma_map_path_char_fixed(c: char)
    ensures
        spec_map_path_char(c) matches Some(d) ==> spec_map_path_char(d) == Some(d),
{
    if 'A' <= c && c <= 'Z' {
        let d = ((c as u32) + 0x20) as char;
        assert(0x61 <= d as u32 <= 0x7A);
    }
}

/// What normalizing gives is normalized.
proof fn lemma_normalize_gives_normalized(s: Seq<char>)
    ensures
        spec_normalize_path(s) matches Some(n) ==> spec_is_normalized(n),
    decreases s.len(),
{
    if s.len() > 0 {
        lemma_normalize_gives_normalized(s.drop_last());
        lemma_map_path_char_fixed(s.last());
        if let Some(prefix) = spec_normalize_path(s.drop_last()) {
            if let Some(c) = spec_map_path_char(s.last()) {
                if !(c == '\\' && prefix.len() > 0 && prefix.last() == '\\') {
                    let n = prefix.push(c);
                    assert forall|i: int| 0 <= i < n.len() implies spec_map_path_char(#[trigger] n[i]) == Some(n[i]) by {
                        if i < prefix.len() {
                            assert(n[i] == prefix[i]);
                        }
                    }
                    assert forall|i: int| 0 < i < n.len() && #[trigger] n[i] == '\\' implies n[i - 1] != '\\' by {
                        if i < prefix.len() {
                            assert(n[i] == prefix[i]);
                        }
                    }
                }
            }
        }
    }
}

/// Normalizing a normalized path gives it back.
proof fn lemma_normalized_is_fixed(n: Seq<char>)
    requires
        spec_is_normalized(n),
    ensures
        spec_normalize_path(n) == Some(n),
    decreases n.len(),
{
    if n.len() > 0 {
        let p = n.drop_last();
        assert forall|i: int| 0 <= i < p.len() implies spec_map_path_char(#[trigger] p[i]) == Some(p[i]) by {
            assert(p[i] == n[i]);
        }
        assert forall|i: int| 0 < i < p.len() && #[trigger] p[i] == '\\' implies p[i - 1] != '\\' by {
            assert(p[i] == n[i]);
        }
        lemma_normalized_is_fixed(p);
        assert(spec_map_path_char(n[n.len() - 1]) == Some(n[n.len() - 1]));
        if n.last() == '\\' && p.len() > 0 {
            assert(n[n.len() - 1] == '\\');
            assert(p.last() == n[n.len() - 2]);
        }
        assert(p.push(n.last()) =~= n);
    }
}

/// Law: normalizing a tag path is idempotent: a normalized path normalizes to itself, so a tag path built from the
/// path of another tag path is that path again.
pub proof fn law_normalize_idempotent(s: Seq<char>)
    ensures
        spec_normalize_path(s) matches Some(n) ==> spec_normalize_path(n) == Some(n),
{
    lemma_normalize_gives_normalized(s);
    if let Some(n) = spec_normalize_path(s) {
        lemma_normalized_is_fixed(n);
    }
}

/// Directory names that are not allowed, sorted.
pub open spec fn spec_banned_names() -> Seq<Seq<char>> {
    seq![
        "aux"@, "com0"@, "com1"@, "com2"@, "com3"@, "com4"@, "com5"@, "com6"@, "com7"@, "com8"@, "com9"@, "con"@,
        "lpt0"@, "lpt1"@, "lpt2"@, "lpt3"@, "lpt4"@, "lpt5"@, "lpt6"@, "lpt7"@, "lpt8"@, "lpt9"@, "nul"@, "prn"@,
    ]
}

/// `true` if `p` has a path component (text between separators) that is exactly `name`.
pub open spec fn spec_has_component(p: Seq<char>, name: Seq<char>) -> bool {
    exists|s: int|
        0 <= s && s + name.len() <= p.len() && (s == 0 || p[s - 1] == '\\') && #[trigger] p.subrange(s, s + name.len())
            == name && (s + name.len() == p.len() || p[s + name.len()] == '\\')
}

/// `true` if some path component of `p` ends with `.`.
pub open spec fn spec_has_component_ending_with_dot(p: Seq<char>) -> bool {
    exists|k: int| 0 <= k < p.len() && #[trigger] p[k] == '.' && (k + 1 == p.len() || p[k + 1] == '\\')
}

/// `true` if a normalized path is acceptable: it does not start at the root, and no component ends with `.` or is
/// a banned name.
pub open spec fn spec_path_acceptable(p: Seq<char>) -> bool {
    &&& !(p.len() > 0 && p[0] == '\\')
    &&& !spec_has_component_ending_with_dot(p)
    &&& forall|i: int| 0 <= i < spec_banned_names().len() ==> !spec_has_component(p, #[trigger] spec_banned_names()[i])
}

/// Refers to a tag path.
///
/// Tag paths are ordered by their paths, then by their groups.
#[derive(Clone, Debug, PartialEq, Eq, Hash, PartialOrd, Ord)]
pub struct TagPath {
    /// The path of the tag, not including the extension.
    pub(crate) path: String,

    /// The group of the tag (also used for determining the file extension).
    pub(crate) group: TagGroup,
}

impl TagPath {
    /// A copy of the path.
    pub(crate) fn copy(&self) -> (r: TagPath)
        ensures
            r == *self,
    {
        TagPath { path: self.path.clone(), group: self.group }
    }

    /// The path component, using Halo path separators.
    pub closed spec fn spec_path(&self) -> Seq<char> {
        self.path@
    }

    /// The group component.
    pub closed spec fn spec_group(&self) -> TagGroup {
        self.group
    }
}

/// Map one character of an input path.
fn map_path_char(c: char) -> (r: Option<char>)
    ensures
        r == spec_map_path_char(c),
{
    if c == '/' || c == '\\' {
        Some('\\')
    } else if c == ':' || c == '*' || c == '?' || c == '"' || c == '<' || c == '>' || c == '|' {
        None
    } else if (c as u32) < 0x20 || c as u32 == 0x7F {
        None
    } else if 'A' <= c && c <= 'Z' {
        let lower: u8 = (c as u8) + 0x20;
        Some(lower as char)
    } else {
        Some(c)
    }
}

/// A mapping failure stays a failure when more characters follow.
proof fn lemma_normalize_none_extends(s: Seq<char>, i: int)
    requires
        0 <= i <= s.len(),
        spec_normalize_path(s.take(i)) is None,
    ensures
        spec_normalize_path(s) is None,
    decreases s.len() - i,
{
    if i == s.len() {
        assert(s.take(i) =~= s);
    } else {
        assert(s.take(i + 1).drop_last() =~= s.take(i));
        lemma_normalize_none_extends(s, i + 1);
    }
}

/// Get the banned directory name at `index`.
fn banned_name(index: usize) -> (r: &'static str)
    requires
        index < 24,
    ensures
        r@ == spec_banned_names()[index as int],
{
    match index {
        0 => "aux",
        1 => "com0",
        2 => "com1",
        3 => "com2",
        4 => "com3",
        5 => "com4",
        6 => "com5",
        7 => "com6",
        8 => "com7",
        9 => "com8",
        10 => "com9",
        11 => "con",
        12 => "lpt0",
        13 => "lpt1",
        14 => "lpt2",
        15 => "lpt3",
        16 => "lpt4",
        17 => "lpt5",
        18 => "lpt6",
        19 => "lpt7",
        20 => "lpt8",
        21 => "lpt9",
        22 => "nul",
        _ => "prn",
    }
}

/// `true` if the component starting at `s` is exactly `name`.
pub open spec fn spec_component_at(p: Seq<char>, s: int, name: Seq<char>) -> bool {
    0 <= s && s + name.len() <= p.len() && (s == 0 || p[s - 1] == '\\') && p.subrange(s, s + name.len()) == name && (s
        + name.len() == p.len() || p[s + name.len()] == '\\')
}

/// Return `true` if the component starting at `s` is exactly `name`.
fn component_at(p: &[char], s: usize, name: &[char]) -> (r: bool)
    requires
        s < p@.len(),
    ensures
        r == spec_component_at(p@, s as int, name@),
{
    if s > 0 && p[s - 1] != '\\' {
        return false;
    }
    if name.len() > p.len() - s {
        return false;
    }
    let mut k: usize = 0;
    while k < name.len()
        invariant
            k <= name@.len(),
            s + name@.len() <= p.len(),
            forall|j: int| 0 <= j < k ==> p@[s + j] == name@[j],
        decreases name@.len() - k,
    {
        if p[s + k] != name[k] {
            return false;
        }
        k = k + 1;
    }
    proof {
        assert(p@.subrange(s as int, s + name@.len()) =~= name@);
    }
    s + name.len() == p.len() || p[s + name.len()] == '\\'
}

/// Return `true` if some component of `p` ends with `.`.
fn has_component_ending_with_dot(p: &[char]) -> (r: bool)
    ensures
        r == spec_has_component_ending_with_dot(p@),
{
    let mut k: usize = 0;
    while k < p.len()
        invariant
            k <= p@.len(),
            forall|j: int| 0 <= j < k ==> !(#[trigger] p@[j] == '.' && (j + 1 == p@.len() || p@[j + 1] == '\\')),
        decreases p@.len() - k,
    {
        if p[k] == '.' && (k + 1 == p.len() || p[k + 1] == '\\') {
            return true;
        }
        k = k + 1;
    }
    false
}

/// Return `true` if some component of `p` is a banned name.
fn has_banned_component(p: &[char]) -> (r: bool)
    ensures
        r == exists|i: int| 0 <= i < spec_banned_names().len() && spec_has_component(p@, #[trigger] spec_banned_names()[i]),
{
    let mut s: usize = 0;
    while s < p.len()
        invariant
            s <= p@.len(),
            forall|i: int, t: int|
                0 <= i < 24 && 0 <= t < s ==> !#[trigger] spec_component_at(p@, t, spec_banned_names()[i]),
        decreases p@.len() - s,
    {
        let mut i: usize = 0;
        while i < 24
            invariant
                s < p@.len(),
                i <= 24,
                forall|j: int, t: int|
                    0 <= j < 24 && 0 <= t < s ==> !#[trigger] spec_component_at(p@, t, spec_banned_names()[j]),
                forall|j: int| 0 <= j < i ==> !spec_component_at(p@, s as int, #[trigger] spec_banned_names()[j]),
            decreases 24 - i,
        {
            let name = chars_of(banned_name(i));
            if component_at(p, s, name.as_slice()) {
                proof {
                    assert(spec_component_at(p@, s as int, spec_banned_names()[i as int]));
                    assert(spec_has_component(p@, spec_banned_names()[i as int]));
                }
                return true;
            }
            i = i + 1;
        }
        s = s + 1;
    }
    proof {
        reveal_strlit("aux");
        reveal_strlit("com0");
        reveal_strlit("com1");
        reveal_strlit("com2");
        reveal_strlit("com3");
        reveal_strlit("com4");
        reveal_strlit("com5");
        reveal_strlit("com6");
        reveal_strlit("com7");
        reveal_strlit("com8");
        reveal_strlit("com9");
        reveal_strlit("con");
        reveal_strlit("lpt0");
        reveal_strlit("lpt1");
        reveal_strlit("lpt2");
        reveal_strlit("lpt3");
        reveal_strlit("lpt4");
        reveal_strlit("lpt5");
        reveal_strlit("lpt6");
        reveal_strlit("lpt7");
        reveal_strlit("lpt8");
        reveal_strlit("lpt9");
        reveal_strlit("nul");
        reveal_strlit("prn");
        assert forall|i: int| 0 <= i < spec_banned_names().len() implies !spec_has_component(p@, #[trigger] spec_banned_names()[i]) by {
            if spec_has_component(p@, spec_banned_names()[i]) {
                let t = choose|t: int|
                    0 <= t && t + spec_banned_names()[i].len() <= p@.len() && (t == 0 || p@[t - 1] == '\\')
                        && #[trigger] p@.subrange(t, t + spec_banned_names()[i].len()) == spec_banned_names()[i]
                        && (t + spec_banned_names()[i].len() == p@.len() || p@[t + spec_banned_names()[i].len()] == '\\');
                assert(spec_component_at(p@, t, spec_banned_names()[i]));
            }
        }
    }
    false
}

impl TagPath {
    /// Construct a tag path from a path with separate path and group components.
    ///
    /// This will accept both Halo (i.e. `\\`) and native paths as input: `/` and `\\` become `\\`, repeated
    /// separators are collapsed and upper case ASCII letters become lower case.
    ///
    /// Returns [`Error::InvalidTagPath`] if the path is not valid: it holds a character that is not allowed (`:`,
    /// `*`, `?`, `"`, `<`, `>`, `|` or an ASCII control character), starts at the root, or has a component that ends
    /// with `.` or is a reserved device name.
    pub fn new(path: &str, group: TagGroup) -> (r: RinghopperResult<TagPath>)
        ensures
            match spec_normalize_path(path@) {
                None => r == Err::<TagPath, Error>(Error::InvalidTagPath),
                Some(p) => if spec_path_acceptable(p) {
                    r matches Ok(t) && t.spec_path() == p && t.spec_group() == group
                } else {
                    r == Err::<TagPath, Error>(Error::InvalidTagPath)
                },
            },
    {
        let input = chars_of(path);
        let mut fixed: Vec<char> = Vec::new();
        let mut i: usize = 0;
        while i < input.len()
            invariant
                i <= input@.len(),
                input@ == path@,
                spec_normalize_path(input@.take(i as int)) == Some(fixed@),
            decreases input@.len() - i,
        {
            proof {
                assert(input@.take(i + 1).drop_last() =~= input@.take(i as int));
                assert(input@.take(i + 1).last() == input@[i as int]);
            }
            let c = match map_path_char(input[i]) {
                Some(c) => c,
                None => {
                    proof {
                        lemma_normalize_none_extends(input@, i + 1);
                    }
                    return Err(Error::InvalidTagPath);
                },
            };
            let len = fixed.len();
            if c == '\\' && len > 0 && fixed[len - 1] == '\\' {
            } else {
                fixed.push(c);
            }
            i = i + 1;
        }
        proof {
            assert(input@.take(i as int) =~= input@);
        }
        if fixed.len() > 0 && fixed[0] == '\\' {
            return Err(Error::InvalidTagPath);
        }
        if has_component_ending_with_dot(fixed.as_slice()) || has_banned_component(fixed.as_slice()) {
            return Err(Error::InvalidTagPath);
        }
        Ok(TagPath { path: string_from_chars(fixed.as_slice()), group })
    }
}

/// The index of the last occurrence of `c` in `s`.
pub open spec fn spec_last_index_of(s: Seq<char>, c: char) -> Option<int>
    decreases s.len(),
{
    if s.len() == 0 {
        None
    } else if s.last() == c {
        Some(s.len() - 1)
    } else {
        spec_last_index_of(s.drop_last(), c)
    }
}

/// No tag group name holds a `.`.
proof fn lemma_group_name_has_no_dot(g: TagGroup)
    ensures
        forall|i: int| 0 <= i < spec_group_name(g).len() ==> spec_group_name(g)[i] != '.',
{
    match g {
        TagGroup::Actor => {
            reveal_strlit("actor");
            assert forall|i: int| 0 <= i < "actor"@.len() implies "actor"@[i] != '.' by {
                assert(i == 0 || i == 1 || i == 2 || i == 3 || i == 4);
            }
        },
        TagGroup::ActorVariant => {
            reveal_strlit("actor_variant");
            assert forall|i: int| 0 <= i < "actor_variant"@.len() implies "actor_variant"@[i] != '.' by {
                assert(i == 0 || i == 1 || i == 2 || i == 3 || i == 4 || i == 5 || i == 6 || i == 7 || i == 8 || i == 9 || i == 10 || i == 11 || i == 12);
            }
        },
        TagGroup::Antenna => {
            reveal_strlit("antenna");
            assert forall|i: int| 0 <= i < "antenna"@.len() implies "antenna"@[i] != '.' by {
                assert(i == 0 || i == 1 || i == 2 || i == 3 || i == 4 || i == 5 || i == 6);
            }
        },
        TagGroup::Biped => {
            reveal_strlit("biped");
            assert forall|i: int| 0 <= i < "biped"@.len() implies "biped"@[i] != '.' by {
                assert(i == 0 || i == 1 || i == 2 || i == 3 || i == 4);
            }
        },
        TagGroup::Bitmap => {
            reveal_strlit("bitmap");
            assert forall|i: int| 0 <= i < "bitmap"@.len() implies "bitmap"@[i] != '.' by {
                assert(i == 0 || i == 1 || i == 2 || i == 3 || i == 4 || i == 5);
            }
        },
        TagGroup::CameraTrack => {
            reveal_strlit("camera_track");
            assert forall|i: int| 0 <= i < "camera_track"@.len() implies "camera_track"@[i] != '.' by {
                assert(i == 0 || i == 1 || i == 2 || i == 3 || i == 4 || i == 5 || i == 6 || i == 7 || i == 8 || i == 9 || i == 10 || i == 11);
            }
        },
        TagGroup::ColorTable => {
            reveal_strlit("color_table");
            assert forall|i: int| 0 <= i < "color_table"@.len() implies "color_table"@[i] != '.' by {
                assert(i == 0 || i == 1 || i == 2 || i == 3 || i == 4 || i == 5 || i == 6 || i == 7 || i == 8 || i == 9 || i == 10);
            }
        },
        TagGroup::ContinuousDamageEffect => {
            reveal_strlit("continuous_damage_effect");
            assert forall|i: int| 0 <= i < "continuous_damage_effect"@.len() implies "continuous_damage_effect"@[i] != '.' by {
                assert(i == 0 || i == 1 || i == 2 || i == 3 || i == 4 || i == 5 || i == 6 || i == 7 || i == 8 || i == 9 || i == 10 || i == 11 || i == 12 || i == 13 || i == 14 || i == 15 || i == 16 || i == 17 || i == 18 || i == 19 || i == 20 || i == 21 || i == 22 || i == 23);
            }
        },
        TagGroup::Contrail => {
            reveal_strlit("contrail");
            assert forall|i: int| 0 <= i < "contrail"@.len() implies "contrail"@[i] != '.' by {
                assert(i == 0 || i == 1 || i == 2 || i == 3 || i == 4 || i == 5 || i == 6 || i == 7);
            }
        },
        TagGroup::DamageEffect => {
            reveal_strlit("damage_effect");
            assert forall|i: int| 0 <= i < "damage_effect"@.len() implies "damage_effect"@[i] != '.' by {
                assert(i == 0 || i == 1 || i == 2 || i == 3 || i == 4 || i == 5 || i == 6 || i == 7 || i == 8 || i == 9 || i == 10 || i == 11 || i == 12);
            }
        },
        TagGroup::Decal => {
            reveal_strlit("decal");
            assert forall|i: int| 0 <= i < "decal"@.len() implies "decal"@[i] != '.' by {
                assert(i == 0 || i == 1 || i == 2 || i == 3 || i == 4);
            }
        },
        TagGroup::DetailObjectCollection => {
            reveal_strlit("detail_object_collection");
            assert forall|i: int| 0 <= i < "detail_object_collection"@.len() implies "detail_object_collection"@[i] != '.' by {
                assert(i == 0 || i == 1 || i == 2 || i == 3 || i == 4 || i == 5 || i == 6 || i == 7 || i == 8 || i == 9 || i == 10 || i == 11 || i == 12 || i == 13 || i == 14 || i == 15 || i == 16 || i == 17 || i == 18 || i == 19 || i == 20 || i == 21 || i == 22 || i == 23);
            }
        },
        TagGroup::Device => {
            reveal_strlit("device");
            assert forall|i: int| 0 <= i < "device"@.len() implies "device"@[i] != '.' by {
                assert(i == 0 || i == 1 || i == 2 || i == 3 || i == 4 || i == 5);
            }
        },
        TagGroup::DeviceControl => {
            reveal_strlit("device_control");
            assert forall|i: int| 0 <= i < "device_control"@.len() implies "device_control"@[i] != '.' by {
                assert(i == 0 || i == 1 || i == 2 || i == 3 || i == 4 || i == 5 || i == 6 || i == 7 || i == 8 || i == 9 || i == 10 || i == 11 || i == 12 || i == 13);
            }
        },
        TagGroup::DeviceLightFixture => {
            reveal_strlit("device_light_fixture");
            assert forall|i: int| 0 <= i < "device_light_fixture"@.len() implies "device_light_fixture"@[i] != '.' by {
                assert(i == 0 || i == 1 || i == 2 || i == 3 || i == 4 || i == 5 || i == 6 || i == 7 || i == 8 || i == 9 || i == 10 || i == 11 || i == 12 || i == 13 || i == 14 || i == 15 || i == 16 || i == 17 || i == 18 || i == 19);
            }
        },
        TagGroup::DeviceMachine => {
            reveal_strlit("device_machine");
            assert forall|i: int| 0 <= i < "device_machine"@.len() implies "device_machine"@[i] != '.' by {
                assert(i == 0 || i == 1 || i == 2 || i == 3 || i == 4 || i == 5 || i == 6 || i == 7 || i == 8 || i == 9 || i == 10 || i == 11 || i == 12 || i == 13);
            }
        },
        TagGroup::Dialogue => {
            reveal_strlit("dialogue");
            assert forall|i: int| 0 <= i < "dialogue"@.len() implies "dialogue"@[i] != '.' by {
                assert(i == 0 || i == 1 || i == 2 || i == 3 || i == 4 || i == 5 || i == 6 || i == 7);
            }
        },
        TagGroup::Effect => {
            reveal_strlit("effect");
            assert forall|i: int| 0 <= i < "effect"@.len() implies "effect"@[i] != '.' by {
                assert(i == 0 || i == 1 || i == 2 || i == 3 || i == 4 || i == 5);
            }
        },
        TagGroup::Equipment => {
            reveal_strlit("equipment");
            assert forall|i: int| 0 <= i < "equipment"@.len() implies "equipment"@[i] != '.' by {
                assert(i == 0 || i == 1 || i == 2 || i == 3 || i == 4 || i == 5 || i == 6 || i == 7 || i == 8);
            }
        },
        TagGroup::Flag => {
            reveal_strlit("flag");
            assert forall|i: int| 0 <= i < "flag"@.len() implies "flag"@[i] != '.' by {
                assert(i == 0 || i == 1 || i == 2 || i == 3);
            }
        },
        TagGroup::Fog => {
            reveal_strlit("fog");
            assert forall|i: int| 0 <= i < "fog"@.len() implies "fog"@[i] != '.' by {
                assert(i == 0 || i == 1 || i == 2);
            }
        },
        TagGroup::Font => {
            reveal_strlit("font");
            assert forall|i: int| 0 <= i < "font"@.len() implies "font"@[i] != '.' by {
                assert(i == 0 || i == 1 || i == 2 || i == 3);
            }
        },
        TagGroup::Garbage => {
            reveal_strlit("garbage");
            assert forall|i: int| 0 <= i < "garbage"@.len() implies "garbage"@[i] != '.' by {
                assert(i == 0 || i == 1 || i == 2 || i == 3 || i == 4 || i == 5 || i == 6);
            }
        },
        TagGroup::GBXModel => {
            reveal_strlit("gbxmodel");
            assert forall|i: int| 0 <= i < "gbxmodel"@.len() implies "gbxmodel"@[i] != '.' by {
                assert(i == 0 || i == 1 || i == 2 || i == 3 || i == 4 || i == 5 || i == 6 || i == 7);
            }
        },
        TagGroup::Globals => {
            reveal_strlit("globals");
            assert forall|i: int| 0 <= i < "globals"@.len() implies "globals"@[i] != '.' by {
                assert(i == 0 || i == 1 || i == 2 || i == 3 || i == 4 || i == 5 || i == 6);
            }
        },
        TagGroup::Glow => {
            reveal_strlit("glow");
            assert forall|i: int| 0 <= i < "glow"@.len() implies "glow"@[i] != '.' by {
                assert(i == 0 || i == 1 || i == 2 || i == 3);
            }
        },
        TagGroup::GrenadeHUDInterface => {
            reveal_strlit("grenade_hud_interface");
            assert forall|i: int| 0 <= i < "grenade_hud_interface"@.len() implies "grenade_hud_interface"@[i] != '.' by {
                assert(i == 0 || i == 1 || i == 2 || i == 3 || i == 4 || i == 5 || i == 6 || i == 7 || i == 8 || i == 9 || i == 10 || i == 11 || i == 12 || i == 13 || i == 14 || i == 15 || i == 16 || i == 17 || i == 18 || i == 19 || i == 20);
            }
        },
        TagGroup::HUDGlobals => {
            reveal_strlit("hud_globals");
            assert forall|i: int| 0 <= i < "hud_globals"@.len() implies "hud_globals"@[i] != '.' by {
                assert(i == 0 || i == 1 || i == 2 || i == 3 || i == 4 || i == 5 || i == 6 || i == 7 || i == 8 || i == 9 || i == 10);
            }
        },
        TagGroup::HUDMessageText => {
            reveal_strlit("hud_message_text");
            assert forall|i: int| 0 <= i < "hud_message_text"@.len() implies "hud_message_text"@[i] != '.' by {
                assert(i == 0 || i == 1 || i == 2 || i == 3 || i == 4 || i == 5 || i == 6 || i == 7 || i == 8 || i == 9 || i == 10 || i == 11 || i == 12 || i == 13 || i == 14 || i == 15);
            }
        },
        TagGroup::HUDNumber => {
            reveal_strlit("hud_number");
            assert forall|i: int| 0 <= i < "hud_number"@.len() implies "hud_number"@[i] != '.' by {
                assert(i == 0 || i == 1 || i == 2 || i == 3 || i == 4 || i == 5 || i == 6 || i == 7 || i == 8 || i == 9);
            }
        },
        TagGroup::InputDeviceDefaults => {
            reveal_strlit("input_device_defaults");
            assert forall|i: int| 0 <= i < "input_device_defaults"@.len() implies "input_device_defaults"@[i] != '.' by {
                assert(i == 0 || i == 1 || i == 2 || i == 3 || i == 4 || i == 5 || i == 6 || i == 7 || i == 8 || i == 9 || i == 10 || i == 11 || i == 12 || i == 13 || i == 14 || i == 15 || i == 16 || i == 17 || i == 18 || i == 19 || i == 20);
            }
        },
        TagGroup::Item => {
            reveal_strlit("item");
            assert forall|i: int| 0 <= i < "item"@.len() implies "item"@[i] != '.' by {
                assert(i == 0 || i == 1 || i == 2 || i == 3);
            }
        },
        TagGroup::ItemCollection => {
            reveal_strlit("item_collection");
            assert forall|i: int| 0 <= i < "item_collection"@.len() implies "item_collection"@[i] != '.' by {
                assert(i == 0 || i == 1 || i == 2 || i == 3 || i == 4 || i == 5 || i == 6 || i == 7 || i == 8 || i == 9 || i == 10 || i == 11 || i == 12 || i == 13 || i == 14);
            }
        },
        TagGroup::LensFlare => {
            reveal_strlit("lens_flare");
            assert forall|i: int| 0 <= i < "lens_flare"@.len() implies "lens_flare"@[i] != '.' by {
                assert(i == 0 || i == 1 || i == 2 || i == 3 || i == 4 || i == 5 || i == 6 || i == 7 || i == 8 || i == 9);
            }
        },
        TagGroup::Light => {
            reveal_strlit("light");
            assert forall|i: int| 0 <= i < "light"@.len() implies "light"@[i] != '.' by {
                assert(i == 0 || i == 1 || i == 2 || i == 3 || i == 4);
            }
        },
        TagGroup::LightVolume => {
            reveal_strlit("light_volume");
            assert forall|i: int| 0 <= i < "light_volume"@.len() implies "light_volume"@[i] != '.' by {
                assert(i == 0 || i == 1 || i == 2 || i == 3 || i == 4 || i == 5 || i == 6 || i == 7 || i == 8 || i == 9 || i == 10 || i == 11);
            }
        },
        TagGroup::Lightning => {
            reveal_strlit("lightning");
            assert forall|i: int| 0 <= i < "lightning"@.len() implies "lightning"@[i] != '.' by {
                assert(i == 0 || i == 1 || i == 2 || i == 3 || i == 4 || i == 5 || i == 6 || i == 7 || i == 8);
            }
        },
        TagGroup::MaterialEffects => {
            reveal_strlit("material_effects");
            assert forall|i: int| 0 <= i < "material_effects"@.len() implies "material_effects"@[i] != '.' by {
                assert(i == 0 || i == 1 || i == 2 || i == 3 || i == 4 || i == 5 || i == 6 || i == 7 || i == 8 || i == 9 || i == 10 || i == 11 || i == 12 || i == 13 || i == 14 || i == 15);
            }
        },
        TagGroup::Meter => {
            reveal_strlit("meter");
            assert forall|i: int| 0 <= i < "meter"@.len() implies "meter"@[i] != '.' by {
                assert(i == 0 || i == 1 || i == 2 || i == 3 || i == 4);
            }
        },
        TagGroup::Model => {
            reveal_strlit("model");
            assert forall|i: int| 0 <= i < "model"@.len() implies "model"@[i] != '.' by {
                assert(i == 0 || i == 1 || i == 2 || i == 3 || i == 4);
            }
        },
        TagGroup::ModelAnimations => {
            reveal_strlit("model_animations");
            assert forall|i: int| 0 <= i < "model_animations"@.len() implies "model_animations"@[i] != '.' by {
                assert(i == 0 || i == 1 || i == 2 || i == 3 || i == 4 || i == 5 || i == 6 || i == 7 || i == 8 || i == 9 || i == 10 || i == 11 || i == 12 || i == 13 || i == 14 || i == 15);
            }
        },
        TagGroup::ModelCollisionGeometry => {
            reveal_strlit("model_collision_geometry");
            assert forall|i: int| 0 <= i < "model_collision_geometry"@.len() implies "model_collision_geometry"@[i] != '.' by {
                assert(i == 0 || i == 1 || i == 2 || i == 3 || i == 4 || i == 5 || i == 6 || i == 7 || i == 8 || i == 9 || i == 10 || i == 11 || i == 12 || i == 13 || i == 14 || i == 15 || i == 16 || i == 17 || i == 18 || i == 19 || i == 20 || i == 21 || i == 22 || i == 23);
            }
        },
        TagGroup::MultiplayerScenarioDescription => {
            reveal_strlit("multiplayer_scenario_description");
            assert forall|i: int| 0 <= i < "multiplayer_scenario_description"@.len() implies "multiplayer_scenario_description"@[i] != '.' by {
                assert(i == 0 || i == 1 || i == 2 || i == 3 || i == 4 || i == 5 || i == 6 || i == 7 || i == 8 || i == 9 || i == 10 || i == 11 || i == 12 || i == 13 || i == 14 || i == 15 || i == 16 || i == 17 || i == 18 || i == 19 || i == 20 || i == 21 || i == 22 || i == 23 || i == 24 || i == 25 || i == 26 || i == 27 || i == 28 || i == 29 || i == 30 || i == 31);
            }
        },
        TagGroup::Object => {
            reveal_strlit("object");
            assert forall|i: int| 0 <= i < "object"@.len() implies "object"@[i] != '.' by {
                assert(i == 0 || i == 1 || i == 2 || i == 3 || i == 4 || i == 5);
            }
        },
        TagGroup::Particle => {
            reveal_strlit("particle");
            assert forall|i: int| 0 <= i < "particle"@.len() implies "particle"@[i] != '.' by {
                assert(i == 0 || i == 1 || i == 2 || i == 3 || i == 4 || i == 5 || i == 6 || i == 7);
            }
        },
        TagGroup::ParticleSystem => {
            reveal_strlit("particle_system");
            assert forall|i: int| 0 <= i < "particle_system"@.len() implies "particle_system"@[i] != '.' by {
                assert(i == 0 || i == 1 || i == 2 || i == 3 || i == 4 || i == 5 || i == 6 || i == 7 || i == 8 || i == 9 || i == 10 || i == 11 || i == 12 || i == 13 || i == 14);
            }
        },
        TagGroup::Physics => {
            reveal_strlit("physics");
            assert forall|i: int| 0 <= i < "physics"@.len() implies "physics"@[i] != '.' by {
                assert(i == 0 || i == 1 || i == 2 || i == 3 || i == 4 || i == 5 || i == 6);
            }
        },
        TagGroup::Placeholder => {
            reveal_strlit("placeholder");
            assert forall|i: int| 0 <= i < "placeholder"@.len() implies "placeholder"@[i] != '.' by {
                assert(i == 0 || i == 1 || i == 2 || i == 3 || i == 4 || i == 5 || i == 6 || i == 7 || i == 8 || i == 9 || i == 10);
            }
        },
        TagGroup::PointPhysics => {
            reveal_strlit("point_physics");
            assert forall|i: int| 0 <= i < "point_physics"@.len() implies "point_physics"@[i] != '.' by {
                assert(i == 0 || i == 1 || i == 2 || i == 3 || i == 4 || i == 5 || i == 6 || i == 7 || i == 8 || i == 9 || i == 10 || i == 11 || i == 12);
            }
        },
        TagGroup::PreferencesNetworkGame => {
            reveal_strlit("preferences_network_game");
            assert forall|i: int| 0 <= i < "preferences_network_game"@.len() implies "preferences_network_game"@[i] != '.' by {
                assert(i == 0 || i == 1 || i == 2 || i == 3 || i == 4 || i == 5 || i == 6 || i == 7 || i == 8 || i == 9 || i == 10 || i == 11 || i == 12 || i == 13 || i == 14 || i == 15 || i == 16 || i == 17 || i == 18 || i == 19 || i == 20 || i == 21 || i == 22 || i == 23);
            }
        },
        TagGroup::Projectile => {
            reveal_strlit("projectile");
            assert forall|i: int| 0 <= i < "projectile"@.len() implies "projectile"@[i] != '.' by {
                assert(i == 0 || i == 1 || i == 2 || i == 3 || i == 4 || i == 5 || i == 6 || i == 7 || i == 8 || i == 9);
            }
        },
        TagGroup::Scenario => {
            reveal_strlit("scenario");
            assert forall|i: int| 0 <= i < "scenario"@.len() implies "scenario"@[i] != '.' by {
                assert(i == 0 || i == 1 || i == 2 || i == 3 || i == 4 || i == 5 || i == 6 || i == 7);
            }
        },
        TagGroup::ScenarioStructureBSP => {
            reveal_strlit("scenario_structure_bsp");
            assert forall|i: int| 0 <= i < "scenario_structure_bsp"@.len() implies "scenario_structure_bsp"@[i] != '.' by {
                assert(i == 0 || i == 1 || i == 2 || i == 3 || i == 4 || i == 5 || i == 6 || i == 7 || i == 8 || i == 9 || i == 10 || i == 11 || i == 12 || i == 13 || i == 14 || i == 15 || i == 16 || i == 17 || i == 18 || i == 19 || i == 20 || i == 21);
            }
        },
        TagGroup::Scenery => {
            reveal_strlit("scenery");
            assert forall|i: int| 0 <= i < "scenery"@.len() implies "scenery"@[i] != '.' by {
                assert(i == 0 || i == 1 || i == 2 || i == 3 || i == 4 || i == 5 || i == 6);
            }
        },
        TagGroup::Shader => {
            reveal_strlit("shader");
            assert forall|i: int| 0 <= i < "shader"@.len() implies "shader"@[i] != '.' by {
                assert(i == 0 || i == 1 || i == 2 || i == 3 || i == 4 || i == 5);
            }
        },
        TagGroup::ShaderEnvironment => {
            reveal_strlit("shader_environment");
            assert forall|i: int| 0 <= i < "shader_environment"@.len() implies "shader_environment"@[i] != '.' by {
                assert(i == 0 || i == 1 || i == 2 || i == 3 || i == 4 || i == 5 || i == 6 || i == 7 || i == 8 || i == 9 || i == 10 || i == 11 || i == 12 || i == 13 || i == 14 || i == 15 || i == 16 || i == 17);
            }
        },
        TagGroup::ShaderModel => {
            reveal_strlit("shader_model");
            assert forall|i: int| 0 <= i < "shader_model"@.len() implies "shader_model"@[i] != '.' by {
                assert(i == 0 || i == 1 || i == 2 || i == 3 || i == 4 || i == 5 || i == 6 || i == 7 || i == 8 || i == 9 || i == 10 || i == 11);
            }
        },
        TagGroup::ShaderTransparentChicago => {
            reveal_strlit("shader_transparent_chicago");
            assert forall|i: int| 0 <= i < "shader_transparent_chicago"@.len() implies "shader_transparent_chicago"@[i] != '.' by {
                assert(i == 0 || i == 1 || i == 2 || i == 3 || i == 4 || i == 5 || i == 6 || i == 7 || i == 8 || i == 9 || i == 10 || i == 11 || i == 12 || i == 13 || i == 14 || i == 15 || i == 16 || i == 17 || i == 18 || i == 19 || i == 20 || i == 21 || i == 22 || i == 23 || i == 24 || i == 25);
            }
        },
        TagGroup::ShaderTransparentChicagoExtended => {
            reveal_strlit("shader_transparent_chicago_extended");
            assert forall|i: int| 0 <= i < "shader_transparent_chicago_extended"@.len() implies "shader_transparent_chicago_extended"@[i] != '.' by {
                assert(i == 0 || i == 1 || i == 2 || i == 3 || i == 4 || i == 5 || i == 6 || i == 7 || i == 8 || i == 9 || i == 10 || i == 11 || i == 12 || i == 13 || i == 14 || i == 15 || i == 16 || i == 17 || i == 18 || i == 19 || i == 20 || i == 21 || i == 22 || i == 23 || i == 24 || i == 25 || i == 26 || i == 27 || i == 28 || i == 29 || i == 30 || i == 31 || i == 32 || i == 33 || i == 34);
            }
        },
        TagGroup::ShaderTransparentGeneric => {
            reveal_strlit("shader_transparent_generic");
            assert forall|i: int| 0 <= i < "shader_transparent_generic"@.len() implies "shader_transparent_generic"@[i] != '.' by {
                assert(i == 0 || i == 1 || i == 2 || i == 3 || i == 4 || i == 5 || i == 6 || i == 7 || i == 8 || i == 9 || i == 10 || i == 11 || i == 12 || i == 13 || i == 14 || i == 15 || i == 16 || i == 17 || i == 18 || i == 19 || i == 20 || i == 21 || i == 22 || i == 23 || i == 24 || i == 25);
            }
        },
        TagGroup::ShaderTransparentGlass => {
            reveal_strlit("shader_transparent_glass");
            assert forall|i: int| 0 <= i < "shader_transparent_glass"@.len() implies "shader_transparent_glass"@[i] != '.' by {
                assert(i == 0 || i == 1 || i == 2 || i == 3 || i == 4 || i == 5 || i == 6 || i == 7 || i == 8 || i == 9 || i == 10 || i == 11 || i == 12 || i == 13 || i == 14 || i == 15 || i == 16 || i == 17 || i == 18 || i == 19 || i == 20 || i == 21 || i == 22 || i == 23);
            }
        },
        TagGroup::ShaderTransparentMeter => {
            reveal_strlit("shader_transparent_meter");
            assert forall|i: int| 0 <= i < "shader_transparent_meter"@.len() implies "shader_transparent_meter"@[i] != '.' by {
                assert(i == 0 || i == 1 || i == 2 || i == 3 || i == 4 || i == 5 || i == 6 || i == 7 || i == 8 || i == 9 || i == 10 || i == 11 || i == 12 || i == 13 || i == 14 || i == 15 || i == 16 || i == 17 || i == 18 || i == 19 || i == 20 || i == 21 || i == 22 || i == 23);
            }
        },
        TagGroup::ShaderTransparentPlasma => {
            reveal_strlit("shader_transparent_plasma");
            assert forall|i: int| 0 <= i < "shader_transparent_plasma"@.len() implies "shader_transparent_plasma"@[i] != '.' by {
                assert(i == 0 || i == 1 || i == 2 || i == 3 || i == 4 || i == 5 || i == 6 || i == 7 || i == 8 || i == 9 || i == 10 || i == 11 || i == 12 || i == 13 || i == 14 || i == 15 || i == 16 || i == 17 || i == 18 || i == 19 || i == 20 || i == 21 || i == 22 || i == 23 || i == 24);
            }
        },
        TagGroup::ShaderTransparentWater => {
            reveal_strlit("shader_transparent_water");
            assert forall|i: int| 0 <= i < "shader_transparent_water"@.len() implies "shader_transparent_water"@[i] != '.' by {
                assert(i == 0 || i == 1 || i == 2 || i == 3 || i == 4 || i == 5 || i == 6 || i == 7 || i == 8 || i == 9 || i == 10 || i == 11 || i == 12 || i == 13 || i == 14 || i == 15 || i == 16 || i == 17 || i == 18 || i == 19 || i == 20 || i == 21 || i == 22 || i == 23);
            }
        },
        TagGroup::Sky => {
            reveal_strlit("sky");
            assert forall|i: int| 0 <= i < "sky"@.len() implies "sky"@[i] != '.' by {
                assert(i == 0 || i == 1 || i == 2);
            }
        },
        TagGroup::Sound => {
            reveal_strlit("sound");
            assert forall|i: int| 0 <= i < "sound"@.len() implies "sound"@[i] != '.' by {
                assert(i == 0 || i == 1 || i == 2 || i == 3 || i == 4);
            }
        },
        TagGroup::SoundEnvironment => {
            reveal_strlit("sound_environment");
            assert forall|i: int| 0 <= i < "sound_environment"@.len() implies "sound_environment"@[i] != '.' by {
                assert(i == 0 || i == 1 || i == 2 || i == 3 || i == 4 || i == 5 || i == 6 || i == 7 || i == 8 || i == 9 || i == 10 || i == 11 || i == 12 || i == 13 || i == 14 || i == 15 || i == 16);
            }
        },
        TagGroup::SoundLooping => {
            reveal_strlit("sound_looping");
            assert forall|i: int| 0 <= i < "sound_looping"@.len() implies "sound_looping"@[i] != '.' by {
                assert(i == 0 || i == 1 || i == 2 || i == 3 || i == 4 || i == 5 || i == 6 || i == 7 || i == 8 || i == 9 || i == 10 || i == 11 || i == 12);
            }
        },
        TagGroup::SoundScenery => {
            reveal_strlit("sound_scenery");
            assert forall|i: int| 0 <= i < "sound_scenery"@.len() implies "sound_scenery"@[i] != '.' by {
                assert(i == 0 || i == 1 || i == 2 || i == 3 || i == 4 || i == 5 || i == 6 || i == 7 || i == 8 || i == 9 || i == 10 || i == 11 || i == 12);
            }
        },
        TagGroup::Spheroid => {
            reveal_strlit("spheroid");
            assert forall|i: int| 0 <= i < "spheroid"@.len() implies "spheroid"@[i] != '.' by {
                assert(i == 0 || i == 1 || i == 2 || i == 3 || i == 4 || i == 5 || i == 6 || i == 7);
            }
        },
        TagGroup::StringList => {
            reveal_strlit("string_list");
            assert forall|i: int| 0 <= i < "string_list"@.len() implies "string_list"@[i] != '.' by {
                assert(i == 0 || i == 1 || i == 2 || i == 3 || i == 4 || i == 5 || i == 6 || i == 7 || i == 8 || i == 9 || i == 10);
            }
        },
        TagGroup::TagCollection => {
            reveal_strlit("tag_collection");
            assert forall|i: int| 0 <= i < "tag_collection"@.len() implies "tag_collection"@[i] != '.' by {
                assert(i == 0 || i == 1 || i == 2 || i == 3 || i == 4 || i == 5 || i == 6 || i == 7 || i == 8 || i == 9 || i == 10 || i == 11 || i == 12 || i == 13);
            }
        },
        TagGroup::UIWidgetCollection => {
            reveal_strlit("ui_widget_collection");
            assert forall|i: int| 0 <= i < "ui_widget_collection"@.len() implies "ui_widget_collection"@[i] != '.' by {
                assert(i == 0 || i == 1 || i == 2 || i == 3 || i == 4 || i == 5 || i == 6 || i == 7 || i == 8 || i == 9 || i == 10 || i == 11 || i == 12 || i == 13 || i == 14 || i == 15 || i == 16 || i == 17 || i == 18 || i == 19);
            }
        },
        TagGroup::UIWidgetDefinition => {
            reveal_strlit("ui_widget_definition");
            assert forall|i: int| 0 <= i < "ui_widget_definition"@.len() implies "ui_widget_definition"@[i] != '.' by {
                assert(i == 0 || i == 1 || i == 2 || i == 3 || i == 4 || i == 5 || i == 6 || i == 7 || i == 8 || i == 9 || i == 10 || i == 11 || i == 12 || i == 13 || i == 14 || i == 15 || i == 16 || i == 17 || i == 18 || i == 19);
            }
        },
        TagGroup::UnicodeStringList => {
            reveal_strlit("unicode_string_list");
            assert forall|i: int| 0 <= i < "unicode_string_list"@.len() implies "unicode_string_list"@[i] != '.' by {
                assert(i == 0 || i == 1 || i == 2 || i == 3 || i == 4 || i == 5 || i == 6 || i == 7 || i == 8 || i == 9 || i == 10 || i == 11 || i == 12 || i == 13 || i == 14 || i == 15 || i == 16 || i == 17 || i == 18);
            }
        },
        TagGroup::Unit => {
            reveal_strlit("unit");
            assert forall|i: int| 0 <= i < "unit"@.len() implies "unit"@[i] != '.' by {
                assert(i == 0 || i == 1 || i == 2 || i == 3);
            }
        },
        TagGroup::UnitHUDInterface => {
            reveal_strlit("unit_hud_interface");
            assert forall|i: int| 0 <= i < "unit_hud_interface"@.len() implies "unit_hud_interface"@[i] != '.' by {
                assert(i == 0 || i == 1 || i == 2 || i == 3 || i == 4 || i == 5 || i == 6 || i == 7 || i == 8 || i == 9 || i == 10 || i == 11 || i == 12 || i == 13 || i == 14 || i == 15 || i == 16 || i == 17);
            }
        },
        TagGroup::VectorFont => {
            reveal_strlit("vector_font");
            assert forall|i: int| 0 <= i < "vector_font"@.len() implies "vector_font"@[i] != '.' by {
                assert(i == 0 || i == 1 || i == 2 || i == 3 || i == 4 || i == 5 || i == 6 || i == 7 || i == 8 || i == 9 || i == 10);
            }
        },
        TagGroup::VectorFontData => {
            reveal_strlit("vector_font_data");
            assert forall|i: int| 0 <= i < "vector_font_data"@.len() implies "vector_font_data"@[i] != '.' by {
                assert(i == 0 || i == 1 || i == 2 || i == 3 || i == 4 || i == 5 || i == 6 || i == 7 || i == 8 || i == 9 || i == 10 || i == 11 || i == 12 || i == 13 || i == 14 || i == 15);
            }
        },
        TagGroup::Vehicle => {
            reveal_strlit("vehicle");
            assert forall|i: int| 0 <= i < "vehicle"@.len() implies "vehicle"@[i] != '.' by {
                assert(i == 0 || i == 1 || i == 2 || i == 3 || i == 4 || i == 5 || i == 6);
            }
        },
        TagGroup::VirtualKeyboard => {
            reveal_strlit("virtual_keyboard");
            assert forall|i: int| 0 <= i < "virtual_keyboard"@.len() implies "virtual_keyboard"@[i] != '.' by {
                assert(i == 0 || i == 1 || i == 2 || i == 3 || i == 4 || i == 5 || i == 6 || i == 7 || i == 8 || i == 9 || i == 10 || i == 11 || i == 12 || i == 13 || i == 14 || i == 15);
            }
        },
        TagGroup::Weapon => {
            reveal_strlit("weapon");
            assert forall|i: int| 0 <= i < "weapon"@.len() implies "weapon"@[i] != '.' by {
                assert(i == 0 || i == 1 || i == 2 || i == 3 || i == 4 || i == 5);
            }
        },
        TagGroup::WeaponHUDInterface => {
            reveal_strlit("weapon_hud_interface");
            assert forall|i: int| 0 <= i < "weapon_hud_interface"@.len() implies "weapon_hud_interface"@[i] != '.' by {
                assert(i == 0 || i == 1 || i == 2 || i == 3 || i == 4 || i == 5 || i == 6 || i == 7 || i == 8 || i == 9 || i == 10 || i == 11 || i == 12 || i == 13 || i == 14 || i == 15 || i == 16 || i == 17 || i == 18 || i == 19);
            }
        },
        TagGroup::WeatherParticleSystem => {
            reveal_strlit("weather_particle_system");
            assert forall|i: int| 0 <= i < "weather_particle_system"@.len() implies "weather_particle_system"@[i] != '.' by {
                assert(i == 0 || i == 1 || i == 2 || i == 3 || i == 4 || i == 5 || i == 6 || i == 7 || i == 8 || i == 9 || i == 10 || i == 11 || i == 12 || i == 13 || i == 14 || i == 15 || i == 16 || i == 17 || i == 18 || i == 19 || i == 20 || i == 21 || i == 22);
            }
        },
        TagGroup::Wind => {
            reveal_strlit("wind");
            assert forall|i: int| 0 <= i < "wind"@.len() implies "wind"@[i] != '.' by {
                assert(i == 0 || i == 1 || i == 2 || i == 3);
            }
        },
        TagGroup::_Unset => {
            reveal_strlit("<unset>");
            assert forall|i: int| 0 <= i < "<unset>"@.len() implies "<unset>"@[i] != '.' by {
                assert(i == 0 || i == 1 || i == 2 || i == 3 || i == 4 || i == 5 || i == 6);
            }
        },
    }
}

/// A sequence without `c` has no last occurrence of it.
proof fn lemma_last_index_absent(s: Seq<char>, c: char)
    requires
        forall|i: int| 0 <= i < s.len() ==> s[i] != c,
    ensures
        spec_last_index_of(s, c) is None,
    decreases s.len(),
{
    if s.len() > 0 {
        assert(s.last() == s[s.len() - 1]);
        lemma_last_index_absent(s.drop_last(), c);
    }
}

/// The last occurrence of `c` is at `k` when `s[k]` is `c` and nothing after it is.
proof fn lemma_last_index_at(s: Seq<char>, k: int, c: char)
    requires
        0 <= k < s.len(),
        s[k] == c,
        forall|i: int| k < i < s.len() ==> s[i] != c,
    ensures
        spec_last_index_of(s, c) == Some(k),
    decreases s.len(),
{
    assert(s.last() == s[s.len() - 1]);
    if k < s.len() - 1 {
        lemma_last_index_at(s.drop_last(), k, c);
    }
}

/// Law: a tag path's internal path splits into its path and group, and its path normalizes to itself, so
/// [`TagPath::from_path`] of the internal path of a tag path built by [`TagPath::new`] gives that tag path back.
pub proof fn law_internal_path_roundtrip(s: Seq<char>, g: TagGroup)
    requires
        spec_normalize_path(s) is Some,
        g != TagGroup::_Unset,
    ensures
        ({
            let n = spec_normalize_path(s)->Some_0;
            &&& spec_split_str_path_ok(n + "."@ + spec_group_name(g), n, g)
            &&& spec_normalize_path(n) == Some(n)
        }),
{
    let n = spec_normalize_path(s)->Some_0;
    law_normalize_idempotent(s);
    reveal_strlit(".");
    let name = spec_group_name(g);
    let full = n + "."@ + name;
    lemma_group_name_has_no_dot(g);
    assert forall|i: int| n.len() < i < full.len() implies full[i] != '.' by {
        assert(full[i] == name[i - n.len() - 1]);
    }
    assert(full[n.len() as int] == '.');
    lemma_last_index_at(full, n.len() as int, '.');
    assert(full.subrange(0, n.len() as int) =~= n);
    assert(full.subrange(n.len() + 1int, full.len() as int) =~= name);
    law_group_name_lookup(g, g);
}

/// `s` with every `from` replaced by `to`.
pub open spec fn spec_replace_char(s: Seq<char>, from: char, to: char) -> Seq<char> {
    s.map_values(|c: char| if c == from { to } else { c })
}

/// Splitting a string path at its last `.`: the path and the tag group, not the unset group, named by the extension.
pub open spec fn spec_split_str_path_ok(s: Seq<char>, path: Seq<char>, group: TagGroup) -> bool {
    match spec_last_index_of(s, '.') {
        Some(k) => path == s.subrange(0, k) && group != TagGroup::_Unset && spec_group_named(
            group,
            s.subrange(k + 1, s.len() as int),
        ),
        None => false,
    }
}

/// `true` if splitting the string path fails: it has no `.`, or no group other than the unset group is named by the
/// extension.
pub open spec fn spec_split_str_path_fails(s: Seq<char>) -> bool {
    match spec_last_index_of(s, '.') {
        Some(k) => forall|g: TagGroup| g != TagGroup::_Unset ==> spec_group_name(g) != s.subrange(k + 1, s.len() as int),
        None => true,
    }
}

/// Find the last occurrence of `c` in `s`.
fn last_index_of(s: &[char], c: char) -> (r: Option<usize>)
    ensures
        match spec_last_index_of(s@, c) {
            Some(k) => r == Some(k as usize) && 0 <= k < s@.len() && s@[k] == c,
            None => r is None,
        },
        r matches Some(n) ==> n < s@.len() && spec_last_index_of(s@, c) == Some(n as int),
{
    let mut i: usize = s.len();
    proof {
        assert(s@.take(i as int) =~= s@);
    }
    while i > 0
        invariant
            i <= s@.len(),
            spec_last_index_of(s@, c) == spec_last_index_of(s@.take(i as int), c),
        decreases i,
    {
        proof {
            assert(s@.take(i as int).drop_last() =~= s@.take(i - 1));
            lemma_last_index_bound(s@.take(i as int), c);
        }
        if s[i - 1] == c {
            return Some(i - 1);
        }
        i = i - 1;
    }
    None
}

/// The last index found is within the sequence and holds the character.
proof fn lemma_last_index_bound(s: Seq<char>, c: char)
    ensures
        spec_last_index_of(s, c) matches Some(k) ==> 0 <= k < s.len() && s[k] == c,
    decreases s.len(),
{
    if s.len() > 0 && s.last() != c {
        lemma_last_index_bound(s.drop_last(), c);
    }
}

/// Returns the native path separator, `std::path::MAIN_SEPARATOR`: `/` or `\\` depending on the platform.
#[verifier::external_body]
pub(crate) fn native_path_separator() -> (r: char)
    ensures
        r == '/' || r == '\\',
{
    std::path::MAIN_SEPARATOR
}

/// A copy of `s` with every `from` replaced by `to`.
fn replace_char(s: &[char], from: char, to: char) -> (r: String)
    ensures
        r@ == spec_replace_char(s@, from, to),
{
    let mut out = String::new();
    let mut i: usize = 0;
    while i < s.len()
        invariant
            i <= s@.len(),
            out@ == spec_replace_char(s@.take(i as int), from, to),
        decreases s@.len() - i,
    {
        let c = s[i];
        string_push(&mut out, if c == from { to } else { c });
        i = i + 1;
        proof {
            assert(spec_replace_char(s@.take(i as int), from, to) =~= spec_replace_char(s@.take(i - 1), from, to).push(
                if c == from { to } else { c }));
        }
    }
    proof {
        assert(s@.take(i as int) =~= s@);
    }
    out
}

impl TagPath {
    /// The internal path: the path, `.` and the group name.
    pub open spec fn spec_internal_path(&self) -> Seq<char> {
        self.spec_path() + "."@ + spec_group_name(self.spec_group())
    }

    /// Split a string path by its tag group, if one is valid.
    ///
    /// Returns `None` if `string_path` has no extension that corresponds to a valid tag group.
    pub fn split_str_path(string_path: &str) -> (r: Option<(&str, TagGroup)>)
        ensures
            match r {
                Some((path, group)) => spec_split_str_path_ok(string_path@, path@, group),
                None => spec_split_str_path_fails(string_path@),
            },
    {
        let chars = chars_of(string_path);
        let k = match last_index_of(chars.as_slice(), '.') {
            Some(k) => k,
            None => return None,
        };
        assert(k < chars@.len());
        assert(chars@.len() == chars.len());
        let extension = string_path.substring_char(k + 1, chars.len());
        let group = match TagGroup::from_str(extension) {
            Ok(g) => g,
            Err(_) => return None,
        };
        Some((string_path.substring_char(0, k), group))
    }

    /// Get the path component of the tag path, using Halo path separators.
    pub fn path(&self) -> (r: &str)
        ensures
            r@ == self.spec_path(),
    {
        self.path.as_str()
    }

    /// Get the group component of the tag path.
    pub fn group(&self) -> (r: TagGroup)
        ensures
            r == self.spec_group(),
    {
        self.group
    }

    /// Get the base name of the tag path (everything after the last `\\`), not including file extension.
    pub fn base_name(&self) -> (r: &str)
        ensures
            r@ == match spec_last_index_of(self.spec_path(), '\\') {
                Some(n) => self.spec_path().subrange(n + 1, self.spec_path().len() as int),
                None => self.spec_path(),
            },
    {
        let path = self.path.as_str();
        let chars = chars_of(path);
        match last_index_of(chars.as_slice(), '\\') {
            Some(n) => path.substring_char(n + 1, chars.len()),
            None => path,
        }
    }

    /// Return the internal path of the tag: the path, `.` and the group name.
    ///
    /// This is what is internally stored in tags.
    pub fn to_internal_path(&self) -> (r: String)
        ensures
            r@ == self.spec_internal_path(),
    {
        let mut chars = chars_of(self.path.as_str());
        chars.push('.');
        let group = chars_of(self.group.as_str());
        let mut i: usize = 0;
        let ghost start = chars@;
        while i < group.len()
            invariant
                i <= group@.len(),
                chars@ == start + group@.take(i as int),
            decreases group@.len() - i,
        {
            chars.push(group[i]);
            i = i + 1;
            proof {
                assert(group@.take(i as int) =~= group@.take(i - 1).push(group@[i - 1]));
            }
        }
        proof {
            reveal_strlit(".");
            assert(group@.take(i as int) =~= group@);
            assert(chars@ =~= self.spec_internal_path());
        }
        string_from_chars(chars.as_slice())
    }

    /// Return a native path of the tag: the internal path with `\\` replaced by the platform's separator.
    ///
    /// This is also how a tag path is displayed.
    pub fn to_native_path(&self) -> (r: String)
        ensures
            exists|sep: char| (sep == '/' || sep == '\\') && r@ == spec_replace_char(self.spec_internal_path(), '\\', sep),
    {
        self.path_with_separator(native_path_separator())
    }

    /// The internal path with `\\` replaced by `sep`.
    pub(crate) fn path_with_separator(&self, sep: char) -> (r: String)
        ensures
            r@ == spec_replace_char(self.spec_internal_path(), '\\', sep),
    {
        let internal = chars_of(self.to_internal_path().as_str());
        replace_char(internal.as_slice(), '\\', sep)
    }

    /// The path as it is displayed: its native path.
    pub fn to_string(&self) -> (r: String)
        ensures
            exists|sep: char| (sep == '/' || sep == '\\') && r@ == spec_replace_char(self.spec_internal_path(), '\\', sep),
    {
        self.to_native_path()
    }

    /// Return the zip path of the tag: the internal path with forward slashes.
    pub fn to_zip_path(&self) -> (r: String)
        ensures
            r@ == spec_replace_char(self.spec_internal_path(), '\\', '/'),
    {
        let internal = chars_of(self.to_internal_path().as_str());
        replace_char(internal.as_slice(), '\\', '/')
    }

    /// Construct a tag path from a path with an extension naming its group.
    ///
    /// Returns [`Error::InvalidTagPath`] if the extension names no group or the path is not valid.
    pub fn from_path(path: &str) -> (r: RinghopperResult<TagPath>)
        ensures
            spec_split_str_path_fails(path@) ==> r == Err::<TagPath, Error>(Error::InvalidTagPath),
            forall|p: Seq<char>, g: TagGroup| #[trigger] spec_split_str_path_ok(path@, p, g) ==> match spec_normalize_path(p) {
                None => r == Err::<TagPath, Error>(Error::InvalidTagPath),
                Some(n) => if spec_path_acceptable(n) {
                    r matches Ok(t) && t.spec_path() == n && t.spec_group() == g
                } else {
                    r == Err::<TagPath, Error>(Error::InvalidTagPath)
                },
            },
    {
        let (path_without_extension, group) = match Self::split_str_path(path) {
            Some(n) => n,
            None => return Err(Error::InvalidTagPath),
        };
        proof {
            lemma_split_unique(path@, path_without_extension@, group);
        }
        Self::new(path_without_extension, group)
    }

    /// Change the group of the path.
    pub fn set_group(&mut self, new_group: TagGroup)
        ensures
            final(self).spec_group() == new_group,
            final(self).spec_path() == old(self).spec_path(),
    {
        self.group = new_group;
    }
}

/// A split of a string path is unique, and excludes failure.
proof fn lemma_split_unique(s: Seq<char>, path: Seq<char>, group: TagGroup)
    requires
        spec_split_str_path_ok(s, path, group),
    ensures
        !spec_split_str_path_fails(s),
        forall|p: Seq<char>, g: TagGroup| #[trigger] spec_split_str_path_ok(s, p, g) ==> p == path && g == group,
{
    assert forall|p: Seq<char>, g: TagGroup| #[trigger] spec_split_str_path_ok(s, p, g) implies p == path && g == group by {
        let k = spec_last_index_of(s, '.')->0;
        let ext = s.subrange(k + 1, s.len() as int);
        crate::primitive::group::lemma_group_named_unique(g, group, ext);
    }
}

/// Refers to a reference to a tag and its tag path.
///
/// When set, a tag path is present. When unset, a group is still present.
#[derive(Clone, Debug, PartialEq)]
pub enum TagReference {
    /// Refers to a reference that is set to a path.
    SetTo(TagPath),

    /// Refers to a reference that isn't set to a path. Note that all references have groups, though.
    Null(TagGroup),
}

impl TagReference {
    /// The tag group of the reference.
    pub open spec fn spec_group(&self) -> TagGroup {
        match self {
            TagReference::Null(g) => *g,
            TagReference::SetTo(p) => p.spec_group(),
        }
    }

    /// Return `true` if the reference is null.
    pub fn is_null(&self) -> (r: bool)
        ensures
            r == (*self is Null),
    {
        matches!(self, TagReference::Null(_))
    }

    /// Return `true` if the reference is set.
    pub fn is_set(&self) -> (r: bool)
        ensures
            r == (*self is SetTo),
    {
        matches!(self, TagReference::SetTo(_))
    }

    /// Return the tag group of the reference.
    pub fn group(&self) -> (r: TagGroup)
        ensures
            r == self.spec_group(),
    {
        match self {
            TagReference::Null(g) => *g,
            TagReference::SetTo(p) => p.group,
        }
    }

    /// Return the tag path of the reference, if set.
    pub fn path(&self) -> (r: Option<&TagPath>)
        ensures
            match self {
                TagReference::Null(_) => r is None,
                TagReference::SetTo(p) => r == Some(p),
            },
    {
        match self {
            TagReference::Null(_) => None,
            TagReference::SetTo(p) => Some(p),
        }
    }

    /// Replace the group in the tag reference, keeping the path if there is one.
    pub fn set_group(&mut self, new_group: TagGroup)
        ensures
            final(self).spec_group() == new_group,
            match *old(self) {
                TagReference::Null(_) => *final(self) == TagReference::Null(new_group),
                TagReference::SetTo(p) => *final(self) matches TagReference::SetTo(q) && q.spec_path() == p.spec_path(),
            },
    {
        match self {
            TagReference::Null(_) => {
                *self = TagReference::Null(new_group);
            },
            TagReference::SetTo(s) => {
                s.set_group(new_group);
            },
        }
    }
}

impl TagReference {
    /// The reference as it is displayed: the native path if it is set, else `(null ` and the group's name and `)`.
    pub fn to_string(&self) -> (r: String)
        ensures
            match self {
                TagReference::SetTo(p) => exists|sep: char|
                    (sep == '/' || sep == '\\') && r@ == spec_replace_char(p.spec_internal_path(), '\\', sep),
                TagReference::Null(g) => r@ == "(null "@ + spec_group_name(*g) + ")"@,
            },
    {
        match self {
            TagReference::SetTo(p) => p.to_string(),
            TagReference::Null(g) => {
                let mut m = "(null ".to_owned();
                m.append(g.as_str());
                m.append(")");
                m
            },
        }
    }
}

impl From<TagPath> for TagReference {
    fn from(item: TagPath) -> (r: TagReference) {
        TagReference::SetTo(item)
    }
}

impl FromSpecImpl<TagPath> for TagReference {
    open spec fn obeys_from_spec() -> bool {
        true
    }

    open spec fn from_spec(v: TagPath) -> TagReference {
        TagReference::SetTo(v)
    }
}

/// Lower level C implementation of a tag reference.
#[derive(Clone, Copy, Debug, PartialEq, Eq, Structural)]
pub struct TagReferenceC {
    pub tag_group: TagGroup,
    pub path_address: Address,
    pub path_length: u32,
    pub tag_id: ID,
}

/// The ID that a tag reference holds: a zero is read as the null ID.
pub open spec fn spec_reference_id(raw: u32) -> ID {
    if raw == 0 {
        choose|id: ID| id@ == 0xFFFFFFFFu32
    } else {
        choose|id: ID| id@ == raw
    }
}

/// The header of a tag reference as written to tag files: the path's length and group, a zero address and a null
/// ID.
pub open spec fn spec_reference_header(group: TagGroup, path_length: u32) -> Seq<u8> {
    spec_u32_to_bytes(true, spec_group_fourcc(group)) + spec_u32_to_bytes(true, 0) + spec_u32_to_bytes(true, path_length)
        + spec_u32_to_bytes(true, 0xFFFFFFFF)
}

/// A non-empty sequence of characters encodes to a non-empty sequence of bytes.
proof fn lemma_encode_nonempty(p: Seq<char>)
    requires
        p.len() > 0,
    ensures
        encode_utf8(p).len() > 0,
{
    assert(encode_utf8(p) == vstd::utf8::encode_scalar(p[0] as u32) + encode_utf8(p.drop_first()));
}

/// A tag reference written to a tag file reads back from where it was written: its path, if any, follows what the
/// file held before, so the extra data cursor must start at the end of that. An empty path reads back as no path.
#[verifier::spinoff_prover]
pub proof fn law_tag_reference_roundtrip(model: (TagGroup, Option<Seq<char>>), data: Seq<u8>, at: int)
    requires
        0 <= at,
        at + 16 <= data.len(),
        data.len() <= usize::MAX,
        model.1 matches Some(p) ==> p.len() > 0 && encode_utf8(p).len() <= u32::MAX && data.len() + encode_utf8(p).len()
            + 1 <= usize::MAX,
    ensures
        <TagReference as TagData>::spec_write_tag(model, data, at, at + 16) matches Ok(d) && <TagReference as TagData>::spec_read_tag(
            d,
            at,
            at + 16,
            data.len() as int,
        ) == Ok::<((TagGroup, Option<Seq<char>>), int), Error>((model, d.len() as int)),
{
    let g = model.0;
    law_fourcc_roundtrip(g);
    lemma_u32_roundtrip(true, spec_group_fourcc(g));
    lemma_u32_roundtrip(true, 0);
    lemma_u32_roundtrip(true, 0xFFFFFFFF);
    let len: u32 = match model.1 {
        Some(p) => encode_utf8(p).len() as u32,
        None => 0,
    };
    lemma_u32_roundtrip(true, len);
    let header = spec_reference_header(g, len);
    let base = match model.1 {
        Some(p) => data + encode_utf8(p) + seq![0u8],
        None => data,
    };
    let d = spec_splice(base, at, header);
    assert(d.subrange(at, at + 4) =~= spec_u32_to_bytes(true, spec_group_fourcc(g)));
    assert(d.subrange(at + 4, at + 8) =~= spec_u32_to_bytes(true, 0));
    assert(d.subrange(at + 8, at + 12) =~= spec_u32_to_bytes(true, len));
    assert(d.subrange(at + 12, at + 16) =~= spec_u32_to_bytes(true, 0xFFFFFFFF));
    assert(<TagReference as TagData>::spec_write_tag(model, data, at, at + 16) == Ok::<Seq<u8>, Error>(d));
    let c = TagReferenceC::spec_read(true, d, at, at + 16)->Ok_0;
    assert(TagReferenceC::spec_read(true, d, at, at + 16) is Ok);
    assert(c.tag_group == g && c.path_length == len);
    if let Some(p) = model.1 {
        let bytes = encode_utf8(p);
        lemma_encode_nonempty(p);
        vstd::utf8::encode_utf8_valid_utf8(p);
        vstd::utf8::encode_utf8_decode_utf8(p);
        assert(d.subrange(data.len() as int, (data.len() + bytes.len()) as int) =~= bytes);
        assert(d[(data.len() + bytes.len()) as int] == 0);
    }
}

impl SimpleTagData for TagReferenceC {
    open spec fn spec_simple_size() -> nat {
        16
    }

    /// A FourCC naming no group is read as the unset group.
    open spec fn spec_read(big: bool, data: Seq<u8>, at: int, struct_end: int) -> RinghopperResult<TagReferenceC> {
        match (spec_u32_at(big, data, at), spec_u32_at(big, data, at + 4), spec_u32_at(big, data, at + 8), spec_u32_at(big, data, at + 0xC)) {
            (Err(e), _, _, _) => Err(e),
            (_, Err(e), _, _) => Err(e),
            (_, _, Err(e), _) => Err(e),
            (_, _, _, Err(e)) => Err(e),
            (Ok(fourcc), Ok(address), Ok(length), Ok(id)) => Ok(TagReferenceC {
                tag_group: match spec_group_from_fourcc(fourcc) {
                    Some(g) => g,
                    None => TagGroup::_Unset,
                },
                path_address: Address { address },
                path_length: length,
                tag_id: spec_reference_id(id),
            }),
        }
    }

    open spec fn spec_encode(self, big: bool) -> RinghopperResult<Seq<u8>> {
        Ok(spec_u32_to_bytes(big, spec_group_fourcc(self.tag_group)) + spec_u32_to_bytes(big, self.path_address.address)
            + spec_u32_to_bytes(big, self.path_length) + spec_u32_to_bytes(big, self.tag_id@))
    }

    fn simple_size() -> (r: usize) {
        16
    }

    fn read<B: ByteOrder>(data: &[u8], at: usize, struct_end: usize) -> (r: RinghopperResult<TagReferenceC>) {
        let tag_group_fourcc = u32::read::<B>(data, at, struct_end)?;
        let path_address = Address::read::<B>(data, at + 0x4, struct_end)?;
        let path_length = u32::read::<B>(data, at + 0x8, struct_end)?;
        let tag_id_int = u32::read::<B>(data, at + 0xC, struct_end)?;
        let tag_id = if tag_id_int == 0 {
            ID::null()
        } else {
            ID::from_u32(tag_id_int)
        };
        proof {
            let raw = tag_id_int;
            let want = if raw == 0 { 0xFFFFFFFFu32 } else { raw };
            assert(exists|id: ID| id@ == want);
            lemma_id_view_injective(tag_id);
        }
        let tag_group = match TagGroup::from_fourcc(tag_group_fourcc) {
            Some(g) => g,
            None => TagGroup::_Unset,
        };
        Ok(TagReferenceC { tag_group, path_address, path_length, tag_id })
    }

    fn write<B: ByteOrder>(&self, data: &mut [u8], at: usize, struct_end: usize) -> (r: RinghopperResult<()>) {
        let ghost d0 = data@;
        let ghost big = B::is_big_endian();
        proof {
            lemma_u32_roundtrip(big, spec_group_fourcc(self.tag_group));
            lemma_u32_roundtrip(big, self.path_address.address);
            lemma_u32_roundtrip(big, self.path_length);
            lemma_u32_roundtrip(big, self.tag_id@);
        }
        self.tag_group.write::<B>(data, at, struct_end)?;
        self.path_address.write::<B>(data, at + 0x4, struct_end)?;
        self.path_length.write::<B>(data, at + 0x8, struct_end)?;
        self.tag_id.write::<B>(data, at + 0xC, struct_end)?;
        proof {
            let a = spec_u32_to_bytes(big, spec_group_fourcc(self.tag_group));
            let b = spec_u32_to_bytes(big, self.path_address.address);
            let c = spec_u32_to_bytes(big, self.path_length);
            let e = spec_u32_to_bytes(big, self.tag_id@);
            lemma_splice_concat(d0, at as int, a, b);
            lemma_splice_concat(d0, at as int, a + b, c);
            lemma_splice_concat(d0, at as int, a + b + c, e);
        }
        Ok(())
    }
}

impl TagData for TagReference {
    /// The group, and the path's characters if the reference is set.
    type Model = (TagGroup, Option<Seq<char>>);

    open spec fn spec_model(&self) -> (TagGroup, Option<Seq<char>>) {
        match self {
            TagReference::Null(g) => (*g, None),
            TagReference::SetTo(p) => (p.spec_group(), Some(p.spec_path())),
        }
    }

    open spec fn spec_size() -> nat {
        16
    }

    /// The path follows at the extra data cursor, null terminated; a zero length means a null reference.
    open spec fn spec_read_tag(data: Seq<u8>, at: int, struct_end: int, cursor: int) -> RinghopperResult<
        ((TagGroup, Option<Seq<char>>), int),
    > {
        match TagReferenceC::spec_read(true, data, at, struct_end) {
            Err(e) => Err(e),
            Ok(c) => {
                let len = c.path_length as int;
                if len == 0 {
                    Ok(((c.tag_group, None), cursor))
                } else if len + 1 > usize::MAX || cursor + len + 1 > usize::MAX {
                    Err(Error::SizeLimitExceeded)
                } else if cursor + len + 1 > data.len() {
                    Err(Error::TagParseFailure)
                } else if data[cursor + len] != 0 || !valid_utf8(data.subrange(cursor, cursor + len)) {
                    Err(Error::InvalidTagPath)
                } else {
                    Ok(((c.tag_group, Some(decode_utf8(data.subrange(cursor, cursor + len)))), cursor + len + 1))
                }
            },
        }
    }

    open spec fn spec_write_tag(model: (TagGroup, Option<Seq<char>>), data: Seq<u8>, at: int, struct_end: int) -> RinghopperResult<Seq<u8>> {
        match model.1 {
            None => Ok(spec_splice(data, at, spec_reference_header(model.0, 0))),
            Some(path) => {
                let bytes = encode_utf8(path);
                if bytes.len() > u32::MAX {
                    Err(Error::ArrayLimitExceeded)
                } else {
                    Ok(spec_splice(data + bytes + seq![0u8], at, spec_reference_header(model.0, bytes.len() as u32)))
                }
            },
        }
    }

    /// A null ID is a null reference; any other ID must be that of a tag of the map, whose path the reference takes.
    open spec fn spec_read_map(map: MapView, address: int, domain: DomainType) -> Result<
        (TagGroup, Option<Seq<char>>),
        MapReadError,
    > {
        match spec_read_simple_map::<TagReferenceC>(map, address, domain) {
            Err(e) => Err(e),
            Ok(c) => if c.tag_id@ == 0xFFFFFFFF {
                Ok((c.tag_group, None))
            } else {
                match (map.tag_by_id)(c.tag_id) {
                    Some(t) => Ok((t.tag_path.spec_group(), Some(t.tag_path.spec_path()))),
                    None => Err(MapReadError::OutOfBounds("invalid tag id 0x"@ + spec_hex_padded(c.tag_id@ as nat, 8))),
                }
            },
        }
    }

    fn size() -> (r: usize) {
        16
    }

    fn read_from_tag_file(data: &[u8], at: usize, struct_end: usize, extra_data_cursor: &mut usize) -> (r: RinghopperResult<TagReference>) {
        let c_primitive = TagReferenceC::read_from_tag_file(data, at, struct_end, extra_data_cursor)?;
        let group = c_primitive.tag_group;
        let len = c_primitive.path_length as usize;
        if len == 0 {
            return Ok(TagReference::Null(group));
        }
        let real_len = len.add_overflow_checked(1)?;
        let start = *extra_data_cursor;
        let end = start.add_overflow_checked(real_len)?;
        let null_byte_index = end - 1;
        fits(real_len, start, data.len())?;
        if data[null_byte_index] != 0 {
            return Err(Error::InvalidTagPath);
        }
        *extra_data_cursor = end;
        let bytes = vstd::slice::slice_subrange(data, start, null_byte_index);
        let path = match str_from_utf8(bytes) {
            Some(s) => s,
            None => return Err(Error::InvalidTagPath),
        };
        proof {
            vstd::utf8::encode_utf8_decode_utf8(path@);
        }
        Ok(TagReference::SetTo(TagPath { path: path.to_owned(), group }))
    }

    fn write_to_tag_file(&self, data: &mut Vec<u8>, at: usize, struct_end: usize) -> (r: RinghopperResult<()>) {
        let construct_to_write = match self {
            TagReference::Null(group) => {
                TagReferenceC { tag_group: *group, path_address: Address { address: 0 }, path_length: 0, tag_id: ID::null() }
            },
            TagReference::SetTo(path) => {
                let bytes = path.path.as_str().as_bytes();
                append_bytes(data, bytes);
                data.push(0);
                let path_length = match into_u32(bytes.len()) {
                    Ok(n) => n,
                    Err(e) => return Err(e),
                };
                TagReferenceC { tag_group: path.group, path_address: Address { address: 0 }, path_length, tag_id: ID::null() }
            },
        };
        construct_to_write.write_to_tag_file(data, at, struct_end)
    }

    fn read_from_map<M: CacheMap>(map: &M, address: usize, domain_type: &DomainType) -> (r: RinghopperResult<TagReference>) {
        let c_primitive = TagReferenceC::read_from_map(map, address, domain_type);
        assert(<TagReferenceC as TagData>::spec_read_map(spec_map_view(map), address as int, *domain_type) == spec_read_simple_map::<TagReferenceC>(spec_map_view(map), address as int, *domain_type));
        let c_primitive = c_primitive?;
        if c_primitive.tag_id.is_null() {
            return Ok(TagReference::Null(c_primitive.tag_group));
        }
        match map.get_tag_by_id(c_primitive.tag_id) {
            Some(tag) => Ok(TagReference::SetTo(tag.tag_path.copy())),
            None => {
                let mut m = "invalid tag id 0x".to_owned();
                m.append(format_hex(c_primitive.tag_id.as_u32() as usize, 8).as_str());
                Err(Error::MapDataOutOfBounds(m))
            },
        }
    }
}

} // verus!
