//! The record store adapter: the attribute encoding of an upload record,
//! its decoding, and a model of the one logical table — a map from sort key
//! (the storage URI) to record — with the put/query/delete laws.

use vstd::prelude::*;
use crate::numeric::i64_dec_str;
use crate::numeric::i64_to_string;
use crate::numeric::lemma_dec_str_round_trip;
use crate::numeric::parse_i64;
use crate::numeric::parse_i64_spec;
use crate::records::S3ObjectInfo;
use crate::records::S3ObjectInfoV;
use crate::text::str_eq;

verus! {

/// A persisted attribute value: a string or a decimal number, as the store
/// distinguishes them.
#[derive(Debug)]
pub enum AttrValue {
    S(String),
    N(String),
}

pub ghost enum AttrValueV {
    S(Seq<char>),
    N(Seq<char>),
}

impl View for AttrValue {
    type V = AttrValueV;

    open spec fn view(&self) -> AttrValueV {
        match self {
            AttrValue::S(s) => AttrValueV::S(s@),
            AttrValue::N(s) => AttrValueV::N(s@),
        }
    }
}

impl DeepView for AttrValue {
    type V = AttrValueV;

    open spec fn deep_view(&self) -> AttrValueV {
        self.view()
    }
}

/// One named attribute of a persisted item.
#[derive(Debug)]
pub struct Attr {
    pub name: String,
    pub value: AttrValue,
}

pub ghost struct AttrV {
    pub name: Seq<char>,
    pub value: AttrValueV,
}

impl View for Attr {
    type V = AttrV;

    open spec fn view(&self) -> AttrV {
        AttrV { name: self.name@, value: self.value@ }
    }
}

impl DeepView for Attr {
    type V = AttrV;

    open spec fn deep_view(&self) -> AttrV {
        self.view()
    }
}

/// The first attribute of the given name, if any.
pub open spec fn spec_lookup(attrs: Seq<AttrV>, name: Seq<char>) -> Option<AttrValueV>
    decreases attrs.len(),
{
    if attrs.len() == 0 {
        None
    } else if attrs[0].name == name {
        Some(attrs[0].value)
    } else {
        spec_lookup(attrs.drop_first(), name)
    }
}

#[verifier::loop_isolation(false)]
fn lookup<'a>(attrs: &'a Vec<Attr>, name: &str) -> (r: Option<&'a AttrValue>)
    ensures
        match r {
            Some(v) => spec_lookup(attrs.deep_view(), name@) == Some(v@),
            None => spec_lookup(attrs.deep_view(), name@) is None,
        },
{
    let ghost all = attrs.deep_view();
    proof {
        assert(all.skip(0) =~= all);
    }
    let mut i: usize = 0;
    while i < attrs.len()
        invariant
            i <= attrs.len(),
            spec_lookup(all, name@) == spec_lookup(all.skip(i as int), name@),
        decreases attrs.len() - i,
    {
        if str_eq(attrs[i].name.as_str(), name) {
            proof {
                assert(all.skip(i as int)[0] == all[i as int]);
            }
            return Some(&attrs[i].value);
        }
        proof {
            assert(all.skip(i as int)[0] == all[i as int]);
            assert(all.skip(i as int).drop_first() =~= all.skip(i as int + 1));
        }
        i = i + 1;
    }
    proof {
        assert(all.skip(i as int) =~= Seq::<AttrV>::empty());
    }
    None
}

/// The four record attributes, in the order they are written.
pub open spec fn spec_attribute_map(v: S3ObjectInfoV) -> Seq<AttrV> {
    seq![
        AttrV { name: "s3_uri"@, value: AttrValueV::S(v.s3_uri) },
        AttrV { name: "object_name"@, value: AttrValueV::S(v.object_name) },
        AttrV { name: "object_type"@, value: AttrValueV::S(v.object_type) },
        AttrV { name: "object_size"@, value: AttrValueV::N(i64_dec_str(v.object_size)) },
    ]
}

/// Encodes an upload record as its persisted attributes; the byte size is
/// written as its decimal string.
pub fn convert_s3_info_into_attribute_map(info: &S3ObjectInfo) -> (r: Vec<Attr>)
    ensures
        r.deep_view() == spec_attribute_map(info@),
{
    let mut r: Vec<Attr> = Vec::new();
    r.push(Attr { name: "s3_uri".to_owned(), value: AttrValue::S(info.s3_uri.clone()) });
    r.push(
        Attr { name: "object_name".to_owned(), value: AttrValue::S(info.object_name.clone()) },
    );
    r.push(
        Attr { name: "object_type".to_owned(), value: AttrValue::S(info.object_type.clone()) },
    );
    r.push(
        Attr { name: "object_size".to_owned(), value: AttrValue::N(i64_to_string(info.object_size)) },
    );
    proof {
        assert(r.deep_view() =~= spec_attribute_map(info@));
    }
    r
}

/// The fixed partition key of the one logical table.
pub open spec fn spec_partition_key_attr() -> AttrV {
    AttrV { name: "this_is_a_partition_key"@, value: AttrValueV::S("123456"@) }
}

/// A full persisted item: the record attributes, the fixed partition key,
/// and the storage URI as the sort key.
pub open spec fn spec_put_item(v: S3ObjectInfoV) -> Seq<AttrV> {
    spec_attribute_map(v) + seq![
        spec_partition_key_attr(),
        AttrV { name: "a_sort_key"@, value: AttrValueV::S(v.s3_uri) },
    ]
}

/// Builds the exact item written by a put: record attributes plus the
/// fixed partition key and the per-record sort key.
pub fn build_put_item(info: &S3ObjectInfo) -> (r: Vec<Attr>)
    ensures
        r.deep_view() == spec_put_item(info@),
{
    let mut r = convert_s3_info_into_attribute_map(info);
    r.push(
        Attr {
            name: "this_is_a_partition_key".to_owned(),
            value: AttrValue::S("123456".to_owned()),
        },
    );
    r.push(Attr { name: "a_sort_key".to_owned(), value: AttrValue::S(info.s3_uri.clone()) });
    proof {
        assert(r.deep_view() =~= spec_put_item(info@));
    }
    r
}

/// What a persisted item decodes to: the four record attributes must be
/// present with their expected kinds and a readable decimal size, else
/// nothing.
pub open spec fn spec_decode_attribute_map(attrs: Seq<AttrV>) -> Option<S3ObjectInfoV> {
    match spec_lookup(attrs, "s3_uri"@) {
        Some(AttrValueV::S(uri)) => match spec_lookup(attrs, "object_name"@) {
            Some(AttrValueV::S(name)) => match spec_lookup(attrs, "object_type"@) {
                Some(AttrValueV::S(ty)) => match spec_lookup(attrs, "object_size"@) {
                    Some(AttrValueV::N(sz)) => match parse_i64_spec(sz) {
                        Some(v) => Some(
                            S3ObjectInfoV {
                                s3_uri: uri,
                                object_name: name,
                                object_type: ty,
                                object_size: v,
                            },
                        ),
                        None => None,
                    },
                    _ => None,
                },
                _ => None,
            },
            _ => None,
        },
        _ => None,
    }
}

/// Decodes a persisted item back into an upload record, the size read back
/// as an integer.
pub fn convert_attribute_map_into_s3_info(attrs: &Vec<Attr>) -> (r: Option<S3ObjectInfo>)
    ensures
        match r {
            Some(info) => spec_decode_attribute_map(attrs.deep_view()) == Some(info@),
            None => spec_decode_attribute_map(attrs.deep_view()) is None,
        },
{
    let s3_uri = match lookup(attrs, "s3_uri") {
        Some(AttrValue::S(s)) => s.clone(),
        _ => {
            return None;
        },
    };
    let object_name = match lookup(attrs, "object_name") {
        Some(AttrValue::S(s)) => s.clone(),
        _ => {
            return None;
        },
    };
    let object_type = match lookup(attrs, "object_type") {
        Some(AttrValue::S(s)) => s.clone(),
        _ => {
            return None;
        },
    };
    let object_size = match lookup(attrs, "object_size") {
        Some(AttrValue::N(s)) => match parse_i64(s.as_str()) {
            Some(v) => v,
            None => {
                return None;
            },
        },
        _ => {
            return None;
        },
    };
    Some(S3ObjectInfo { s3_uri, object_name, object_type, object_size })
}

/// Round trip of the adapter: the item a record is written as decodes back
/// to that record, field by field, the size as an integer again.
pub proof fn lemma_attribute_map_round_trip(v: S3ObjectInfoV)
    requires
        -0x8000_0000_0000_0000 <= v.object_size <= 0x7fff_ffff_ffff_ffff,
    ensures
        spec_decode_attribute_map(spec_put_item(v)) == Some(v),
{
    reveal_strlit("s3_uri");
    reveal_strlit("object_name");
    reveal_strlit("object_type");
    reveal_strlit("object_size");
    reveal_strlit("this_is_a_partition_key");
    reveal_strlit("a_sort_key");
    let items = spec_put_item(v);
    let t1 = items.drop_first();
    let t2 = t1.drop_first();
    let t3 = t2.drop_first();
    assert(items[0].name == "s3_uri"@);
    assert(t1[0] == items[1] && t1[1] == items[2] && t1[2] == items[3]);
    assert(t2[0] == items[2] && t2[1] == items[3]);
    assert(t3[0] == items[3]);
    assert("s3_uri"@.len() == 6 && "object_name"@.len() == 11 && "object_type"@.len() == 11
        && "object_size"@.len() == 11);
    assert("object_name"@[7] == 'n' && "object_type"@[7] == 't' && "object_size"@[7] == 's');
    assert(spec_lookup(items, "s3_uri"@) == Some(AttrValueV::S(v.s3_uri)));
    assert(spec_lookup(items, "object_name"@) == spec_lookup(t1, "object_name"@));
    assert(spec_lookup(items, "object_name"@) == Some(AttrValueV::S(v.object_name)));
    assert(spec_lookup(items, "object_type"@) == spec_lookup(t1, "object_type"@));
    assert(spec_lookup(t1, "object_type"@) == spec_lookup(t2, "object_type"@));
    assert(spec_lookup(items, "object_type"@) == Some(AttrValueV::S(v.object_type)));
    assert(spec_lookup(items, "object_size"@) == spec_lookup(t1, "object_size"@));
    assert(spec_lookup(t1, "object_size"@) == spec_lookup(t2, "object_size"@));
    assert(spec_lookup(t2, "object_size"@) == spec_lookup(t3, "object_size"@));
    assert(spec_lookup(items, "object_size"@) == Some(
        AttrValueV::N(i64_dec_str(v.object_size)),
    ));
    lemma_dec_str_round_trip(v.object_size);
}

/// The model of the one logical table: records keyed by their sort key,
/// the storage URI.
pub open spec fn store_put(
    m: Map<Seq<char>, S3ObjectInfoV>,
    v: S3ObjectInfoV,
) -> Map<Seq<char>, S3ObjectInfoV> {
    m.insert(v.s3_uri, v)
}

/// Deleting a batch deletes each given sort key in turn.
pub open spec fn store_delete_all(
    m: Map<Seq<char>, S3ObjectInfoV>,
    uris: Seq<Seq<char>>,
) -> Map<Seq<char>, S3ObjectInfoV>
    decreases uris.len(),
{
    if uris.len() == 0 {
        m
    } else {
        store_delete_all(m.remove(uris[0]), uris.drop_first())
    }
}

/// A put is an idempotent upsert: writing the same record twice leaves the
/// store as one write left it.
pub proof fn lemma_put_idempotent(m: Map<Seq<char>, S3ObjectInfoV>, v: S3ObjectInfoV)
    ensures
        store_put(store_put(m, v), v) == store_put(m, v),
{
    assert(store_put(store_put(m, v), v) =~= store_put(m, v));
}

/// Round trip through the store: a record just written is found under its
/// storage URI, and its persisted item decodes back to the record.
pub proof fn lemma_put_then_query_round_trip(m: Map<Seq<char>, S3ObjectInfoV>, v: S3ObjectInfoV)
    requires
        -0x8000_0000_0000_0000 <= v.object_size <= 0x7fff_ffff_ffff_ffff,
    ensures
        store_put(m, v).contains_key(v.s3_uri),
        store_put(m, v)[v.s3_uri] == v,
        spec_decode_attribute_map(spec_put_item(store_put(m, v)[v.s3_uri])) == Some(v),
{
    lemma_attribute_map_round_trip(v);
}

/// Deleting exactly the keys a query returned leaves the store empty: a
/// later query finds nothing, assuming no concurrent writers.
pub proof fn lemma_delete_after_query_empties(
    m: Map<Seq<char>, S3ObjectInfoV>,
    uris: Seq<Seq<char>>,
)
    requires
        forall|k: Seq<char>| m.dom().contains(k) ==> #[trigger] uris.contains(k),
    ensures
        store_delete_all(m, uris) == Map::<Seq<char>, S3ObjectInfoV>::empty(),
    decreases uris.len(),
{
    if uris.len() == 0 {
        assert forall|k: Seq<char>| !(#[trigger] m.dom().contains(k)) by {
            if m.dom().contains(k) {
                assert(uris.contains(k));
            }
        }
        assert(m =~= Map::<Seq<char>, S3ObjectInfoV>::empty());
    } else {
        let m2 = m.remove(uris[0]);
        let rest = uris.drop_first();
        assert forall|k: Seq<char>| m2.dom().contains(k) implies #[trigger] rest.contains(
            k,
        ) by {
            assert(m.dom().contains(k) && k != uris[0]);
            assert(uris.contains(k));
            let i = choose|i: int| 0 <= i < uris.len() && uris[i] == k;
            assert(i >= 1);
            assert(rest[i - 1] == k);
        }
        lemma_delete_after_query_empties(m2, rest);
    }
}

} // verus!
