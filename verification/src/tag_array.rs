//! The tag array of a cache file: from the records of the array to the tags of the map and their IDs.

use vstd::prelude::*;
use vstd::string::StringExecFns;
use vstd::utf8::decode_utf8;
use crate::error::{Error, RinghopperResult};
use crate::map::{CacheMap, DomainType, Tag, spec_c_string_in_domain};
use crate::primitive::data::{ID, spec_id_index};
use crate::primitive::group::{TagGroup, spec_group_name};
use crate::primitive::path::{TagPath, spec_normalize_path, spec_path_acceptable, spec_replace_char};
use crate::text::{format_decimal, format_hex, spec_decimal_digits, spec_hex_padded, str_eq};

verus! {

/// A record of the tag array of a cache file, as read from the map.
#[derive(Clone, Copy, Debug, PartialEq, Eq, Structural)]
pub struct CachedTagRecord {
    /// The group of the tag; [`TagGroup::_Unset`] for an unused slot.
    pub group: TagGroup,

    /// The ID of the tag, whose index is the record's position.
    pub id: ID,

    /// The address of the tag's path in tag data.
    pub path_address: usize,

    /// The address of the tag's base struct.
    pub data_address: usize,
}

/// Why the tag array cannot be read: a message, or the internal path of a tag that occurs twice (whose message
/// shows the path with the platform's separator).
pub enum TagArrayError {
    Message(Seq<char>),
    Duplicate(Seq<char>),
}

/// A tag of the map as the records give it: its path, group and the address of its base struct.
pub type TagModel = (Seq<char>, TagGroup, usize);

/// The path, group and ID of a tag of the map.
pub type IdModel = (Seq<char>, TagGroup, ID);

/// The message for a record whose ID does not hold its position.
pub open spec fn spec_invalid_id_message(t: int) -> Seq<char> {
    "tag #"@ + spec_decimal_digits(t as nat) + " has an invalid tag ID"@
}

/// The message for a record whose path cannot be read.
pub open spec fn spec_bad_address_message(t: int, address: int) -> Seq<char> {
    "unable to get the tag path for tag #"@ + spec_decimal_digits(t as nat) + " due to a bad address 0x"@
        + spec_hex_padded(address as nat, 8)
}

/// The message for a record whose path is not a valid tag path.
pub open spec fn spec_bad_path_message(t: int, path: Seq<char>) -> Seq<char> {
    "unable to get the tag path for tag #"@ + spec_decimal_digits(t as nat) + " ("@ + path
        + ") due to a parse failure: invalid tag path"@
}

/// The message for a tag array with more tags than IDs can index.
pub open spec fn spec_too_many_message(count: int) -> Seq<char> {
    "maximum tag count exceeded (map claims to have "@ + spec_decimal_digits(count as nat) + " tags"@
}

/// `true` if a tag with `path` and `group` is already among `ids`.
pub open spec fn spec_has_id(ids: Seq<IdModel>, path: Seq<char>, group: TagGroup) -> bool {
    exists|j: int| 0 <= j < ids.len() && #[trigger] ids[j].0 == path && ids[j].1 == group
}

/// The tags and IDs of the first `k` records, where `domain` is the map's tag data, or why they cannot be read.
pub open spec fn spec_tags_upto(domain: Option<(Seq<u8>, usize)>, records: Seq<CachedTagRecord>, k: nat) -> Result<
    (Seq<Option<TagModel>>, Seq<IdModel>),
    TagArrayError,
>
    decreases k,
{
    if k == 0 {
        Ok((Seq::empty(), Seq::empty()))
    } else {
        match spec_tags_upto(domain, records, (k - 1) as nat) {
            Err(e) => Err(e),
            Ok((tags, ids)) => {
                let t = k - 1;
                let rec = records[t];
                if rec.group == TagGroup::_Unset {
                    Ok((tags.push(None), ids))
                } else if spec_id_index(rec.id@) != Some(t as u16) {
                    Err(TagArrayError::Message(spec_invalid_id_message(t)))
                } else {
                    match spec_c_string_in_domain(domain, rec.path_address as int) {
                        Ok(Some(b)) => {
                            let chars = decode_utf8(b);
                            match spec_normalize_path(chars) {
                                Some(n) => if !spec_path_acceptable(n) {
                                    Err(TagArrayError::Message(spec_bad_path_message(t, chars)))
                                } else if spec_has_id(ids, n, rec.group) {
                                    Err(TagArrayError::Duplicate(n + "."@ + spec_group_name(rec.group)))
                                } else {
                                    Ok((tags.push(Some((n, rec.group, rec.data_address))), ids.push((n, rec.group, rec.id))))
                                },
                                None => Err(TagArrayError::Message(spec_bad_path_message(t, chars))),
                            }
                        },
                        _ => Err(TagArrayError::Message(spec_bad_address_message(t, rec.path_address as int))),
                    }
                }
            },
        }
    }
}

/// The tags and IDs of a tag array, or why it cannot be read.
pub open spec fn spec_all_tags(domain: Option<(Seq<u8>, usize)>, records: Seq<CachedTagRecord>) -> Result<
    (Seq<Option<TagModel>>, Seq<IdModel>),
    TagArrayError,
> {
    if records.len() > 0xFFFF {
        Err(TagArrayError::Message(spec_too_many_message(records.len() as int)))
    } else {
        spec_tags_upto(domain, records, records.len())
    }
}

/// `true` if `tag` is the tag that `m` describes, in tag data.
pub open spec fn spec_tag_is(tag: Option<Tag>, m: Option<TagModel>) -> bool {
    match (tag, m) {
        (None, None) => true,
        (Some(t), Some((path, group, address))) => t.tag_path.spec_path() == path && t.tag_path.spec_group() == group
            && t.address == address && t.domain == DomainType::TagData,
        _ => false,
    }
}

/// `true` if `entry` is the path and ID that `m` describes.
pub open spec fn spec_id_is(entry: (TagPath, ID), m: IdModel) -> bool {
    entry.0.spec_path() == m.0 && entry.0.spec_group() == m.1 && entry.1 == m.2
}

/// `e` is the map parse failure for `why`, with tag paths shown with the platform's separator.
pub open spec fn spec_tag_array_error_is(e: Error, why: TagArrayError) -> bool {
    match why {
        TagArrayError::Message(m) => e matches Error::MapParseFailure(s) && s@ == m,
        TagArrayError::Duplicate(p) => e matches Error::MapParseFailure(s) && spec_duplicate_message(s@, p),
    }
}

/// `true` if `m` is the message for a tag with internal path `p` that occurs twice, with either separator.
pub open spec fn spec_duplicate_message(m: Seq<char>, p: Seq<char>) -> bool {
    exists|sep: char|
        (sep == '/' || sep == '\\') && m == "multiple instances of tag "@ + #[trigger] spec_replace_char(p, '\\', sep)
            + " detected"@
}

/// Once reading a record fails, reading more records fails the same way.
proof fn lemma_tags_err(domain: Option<(Seq<u8>, usize)>, records: Seq<CachedTagRecord>, i: nat, n: nat)
    requires
        i <= n,
        spec_tags_upto(domain, records, i) is Err,
    ensures
        spec_tags_upto(domain, records, n) == spec_tags_upto(domain, records, i),
    decreases n,
{
    if i < n {
        lemma_tags_err(domain, records, i, (n - 1) as nat);
    }
}

/// `true` if a tag with the path and group of `path` is among `ids`.
fn has_path(ids: &Vec<(TagPath, ID)>, path: &TagPath) -> (r: bool)
    ensures
        r == exists|k: int| 0 <= k < ids@.len() && ids@[k].0.spec_path() == path.spec_path() && ids@[k].0.spec_group()
            == path.spec_group(),
{
    let mut j: usize = 0;
    while j < ids.len()
        invariant
            j <= ids@.len(),
            forall|k: int| 0 <= k < j ==> !(ids@[k].0.spec_path() == path.spec_path() && ids@[k].0.spec_group() == path.spec_group()),
        decreases ids@.len() - j,
    {
        if ids[j].0.group() == path.group() && str_eq(ids[j].0.path(), path.path()) {
            return true;
        }
        j = j + 1;
    }
    false
}

/// A map parse failure with the message `m`.
fn failure(m: String) -> (r: Error)
    ensures
        r matches Error::MapParseFailure(s) && s@ == m@,
{
    Error::MapParseFailure(m)
}

/// `true` if `tags` and `ids` are the tags and IDs that `tm` and `im` describe.
pub open spec fn spec_tables_are(tags: Seq<Option<Tag>>, ids: Seq<(TagPath, ID)>, tm: Seq<Option<TagModel>>, im: Seq<IdModel>) -> bool {
    &&& tags.len() == tm.len()
    &&& ids.len() == im.len()
    &&& forall|i: int| 0 <= i < tm.len() ==> #[trigger] spec_tag_is(tags[i], tm[i])
    &&& forall|i: int| 0 <= i < im.len() ==> #[trigger] spec_id_is(ids[i], im[i])
}

/// Add the tag of record `t` to the tables of the records before it.
fn add_record<M: CacheMap>(
    map: &M,
    records: &Vec<CachedTagRecord>,
    t: usize,
    tags: &mut Vec<Option<Tag>>,
    ids: &mut Vec<(TagPath, ID)>,
) -> (r: RinghopperResult<()>)
    requires
        t < records@.len() <= 0xFFFF,
        spec_tags_upto(map.spec_domain(DomainType::TagData), records@, t as nat) matches Ok((tm, im)) && spec_tables_are(
            old(tags)@,
            old(ids)@,
            tm,
            im,
        ),
    ensures
        match spec_tags_upto(map.spec_domain(DomainType::TagData), records@, (t + 1) as nat) {
            Ok((tm, im)) => r is Ok && spec_tables_are(final(tags)@, final(ids)@, tm, im),
            Err(why) => r matches Err(e) && spec_tag_array_error_is(e, why),
        },
{
    let ghost domain = map.spec_domain(DomainType::TagData);
    let ghost (tm, im) = spec_tags_upto(domain, records@, t as nat)->Ok_0;
    let rec = records[t];
    if rec.group == TagGroup::_Unset {
        tags.push(None);
        proof {
            let tm2 = tm.push(None);
            assert forall|i: int| 0 <= i < tm2.len() implies #[trigger] spec_tag_is(tags@[i], tm2[i]) by {
                if i < tm.len() {
                    assert(tags@[i] == old(tags)@[i]);
                }
            }
        }
        return Ok(());
    }
    let index_holds = match rec.id.index() {
        Some(index) => index as usize == t,
        None => false,
    };
    if !index_holds {
        let mut m = "tag #".to_owned();
        m.append(format_decimal(t).as_str());
        m.append(" has an invalid tag ID");
        return Err(failure(m));
    }
    let path = match map.get_c_string_at_address(rec.path_address, &DomainType::TagData) {
        Some(p) => p,
        None => {
            let mut m = "unable to get the tag path for tag #".to_owned();
            m.append(format_decimal(t).as_str());
            m.append(" due to a bad address 0x");
            m.append(format_hex(rec.path_address, 8).as_str());
            return Err(failure(m));
        },
    };
    proof {
        vstd::utf8::encode_utf8_decode_utf8(path@);
    }
    let tag_path = match TagPath::new(path, rec.group) {
        Ok(p) => p,
        Err(_) => {
            let mut m = "unable to get the tag path for tag #".to_owned();
            m.append(format_decimal(t).as_str());
            m.append(" (");
            m.append(path);
            m.append(") due to a parse failure: invalid tag path");
            return Err(failure(m));
        },
    };
    let ghost n = tag_path.spec_path();
    if has_path(ids, &tag_path) {
        proof {
            let k = choose|k: int| 0 <= k < ids@.len() && ids@[k].0.spec_path() == n && ids@[k].0.spec_group() == rec.group;
            assert(spec_id_is(ids@[k], im[k]));
            assert(spec_has_id(im, n, rec.group));
        }
        let shown = tag_path.to_string();
        let mut m = "multiple instances of tag ".to_owned();
        m.append(shown.as_str());
        m.append(" detected");
        let e = failure(m);
        proof {
            let sep = choose|sep: char| (sep == '/' || sep == '\\') && shown@ == spec_replace_char(tag_path.spec_internal_path(), '\\', sep);
            let p = n + "."@ + spec_group_name(rec.group);
            assert(e matches Error::MapParseFailure(s) && (sep == '/' || sep == '\\') && s@ == "multiple instances of tag "@
                + spec_replace_char(p, '\\', sep) + " detected"@);
            assert(spec_duplicate_message(e->MapParseFailure_0@, p));
        }
        return Err(e);
    }
    proof {
        if spec_has_id(im, n, rec.group) {
            let k = choose|k: int| 0 <= k < im.len() && #[trigger] im[k].0 == n && im[k].1 == rec.group;
            assert(spec_id_is(ids@[k], im[k]));
        }
    }
    ids.push((tag_path.copy(), rec.id));
    tags.push(Some(Tag { tag_path, address: rec.data_address, domain: DomainType::TagData }));
    proof {
        let tm2 = tm.push(Some((n, rec.group, rec.data_address)));
        let im2 = im.push((n, rec.group, rec.id));
        assert forall|i: int| 0 <= i < tm2.len() implies #[trigger] spec_tag_is(tags@[i], tm2[i]) by {
            if i < tm.len() {
                assert(tags@[i] == old(tags)@[i]);
            }
        }
        assert forall|i: int| 0 <= i < im2.len() implies #[trigger] spec_id_is(ids@[i], im2[i]) by {
            if i < im.len() {
                assert(ids@[i] == old(ids)@[i]);
            }
        }
    }
    Ok(())
}

/// Get all tags of a map from the records of its tag array: each record's tag (`None` for an unused slot), and the
/// path and ID of each tag, in order.
///
/// Fails with [`Error::MapParseFailure`] where there are more than `0xFFFF` records, a record's ID does not hold its
/// index, a tag's path cannot be read from tag data or is not a valid tag path, or a tag occurs twice.
pub fn get_all_tags<M: CacheMap>(map: &M, records: &Vec<CachedTagRecord>) -> (r: RinghopperResult<
    (Vec<Option<Tag>>, Vec<(TagPath, ID)>),
>)
    ensures
        match spec_all_tags(map.spec_domain(DomainType::TagData), records@) {
            Ok((tm, im)) => r matches Ok((rt, ri)) && spec_tables_are(rt@, ri@, tm, im),
            Err(why) => r matches Err(e) && spec_tag_array_error_is(e, why),
        },
{
    let ghost domain = map.spec_domain(DomainType::TagData);
    let tag_count = records.len();
    if tag_count > 0xFFFF {
        let mut m = "maximum tag count exceeded (map claims to have ".to_owned();
        m.append(format_decimal(tag_count).as_str());
        m.append(" tags");
        return Err(failure(m));
    }
    let mut tags: Vec<Option<Tag>> = Vec::new();
    let mut ids: Vec<(TagPath, ID)> = Vec::new();
    let mut t: usize = 0;
    while t < tag_count
        invariant
            t <= tag_count <= 0xFFFF,
            tag_count == records@.len(),
            domain == map.spec_domain(DomainType::TagData),
            spec_tags_upto(domain, records@, t as nat) matches Ok((tm, im)) && spec_tables_are(tags@, ids@, tm, im),
        decreases tag_count - t,
    {
        match add_record(map, records, t, &mut tags, &mut ids) {
            Ok(()) => {},
            Err(e) => {
                proof {
                    lemma_tags_err(domain, records@, (t + 1) as nat, tag_count as nat);
                }
                return Err(e);
            },
        }
        t = t + 1;
    }
    Ok((tags, ids))
}

} // verus!
