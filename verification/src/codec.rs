use vstd::prelude::*;

use crate::persist::StoreError;
use crate::snapshot::{map_of, Snapshot};

verus! {

/// The text that the JSON encoder produces for one object holding one
/// field named `field`, whose value is the object of the entries of `m`.
pub uninterp spec fn envelope_json(field: Seq<char>, m: Map<Seq<char>, Seq<char>>) -> Seq<char>;

/// What the JSON parser makes of `text`: `None` when `text` is not one JSON
/// object whose fields each hold an object of string values, otherwise the
/// parsed fields as a map of maps.
pub uninterp spec fn parsed_fields(text: Seq<char>) -> Option<
    Map<Seq<char>, Map<Seq<char>, Seq<char>>>,
>;

/// The map of maps described by a list of named entry lists; on a repeated
/// name the later field wins.
pub open spec fn fields_map(s: Seq<(String, Vec<(String, String)>)>) -> Map<
    Seq<char>,
    Map<Seq<char>, Seq<char>>,
>
    decreases s.len(),
{
    if s.len() == 0 {
        Map::empty()
    } else {
        fields_map(s.drop_last()).insert(s.last().0@, map_of(s.last().1@))
    }
}

/// Pairwise-distinct field names in a list of named entry lists.
pub open spec fn distinct_field_names(s: Seq<(String, Vec<(String, String)>)>) -> bool {
    forall|i: int, j: int| 0 <= i < j < s.len() ==> s[i].0@ != s[j].0@
}

/// Relies on serde_json::to_string on a BTreeMap<String, BTreeMap<String,
/// String>>: it writes one JSON object per map with the keys in sorted
/// order, so the text depends on the field name and on the entries' map
/// alone.
#[verifier::external_body]
fn to_json_text(field: &str, entries: &Vec<(String, String)>) -> (r: String)
    ensures
        r@ == envelope_json(field@, map_of(entries@)),
{
    let mut inner = std::collections::BTreeMap::new();
    for (k, v) in entries {
        inner.insert(k.clone(), v.clone());
    }
    let mut outer = std::collections::BTreeMap::new();
    outer.insert(field.to_owned(), inner);
    serde_json::to_string(&outer).unwrap()
}

/// Relies on serde_json::from_str::<BTreeMap<String, BTreeMap<String,
/// String>>>: whether the text parses, and to what, depends on the text
/// alone; the exact output of serde_json::to_string on such a map parses
/// back to that map; the iteration of the parsed map yields each field name
/// once.
#[verifier::external_body]
fn from_json_text(text: &str) -> (r: Option<Vec<(String, Vec<(String, String)>)>>)
    ensures
        r is Some <==> parsed_fields(text@) is Some,
        r matches Some(fields) ==> fields_map(fields@) == parsed_fields(text@).unwrap(),
        r matches Some(fields) ==> distinct_field_names(fields@),
        forall|f: Seq<char>, m: Map<Seq<char>, Seq<char>>|
            (m.dom().finite() && text@ == envelope_json(f, m)) ==> (r is Some && fields_map(
                r.unwrap()@,
            ) == map![f => m]),
{
    let parsed: std::collections::BTreeMap<String, std::collections::BTreeMap<String, String>> =
        match serde_json::from_str(text) {
            Ok(p) => p,
            Err(_) => return None,
        };
    let mut fields = Vec::new();
    for (name, inner) in parsed {
        fields.push((name, inner.into_iter().collect()));
    }
    Some(fields)
}

/// The one field of the persisted envelope.
pub open spec fn inner_field() -> Seq<char> {
    "inner"@
}

/// The file text that encodes snapshot map `m`.
pub open spec fn snapshot_text(m: Map<Seq<char>, Seq<char>>) -> Seq<char> {
    envelope_json(inner_field(), m)
}

/// What the store reads out of file text: the text must parse as one JSON
/// object with exactly one field, named "inner", holding the snapshot's
/// entries.
pub open spec fn decoded_snapshot(text: Seq<char>) -> Option<Map<Seq<char>, Seq<char>>> {
    match parsed_fields(text) {
        Some(fields) => if fields.dom() == set![inner_field()] {
            Some(fields[inner_field()])
        } else {
            None
        },
        None => None,
    }
}

/// A field name is in the map of a field list exactly when some field holds it.
proof fn lemma_fields_map_contains(s: Seq<(String, Vec<(String, String)>)>, k: Seq<char>)
    ensures
        fields_map(s).contains_key(k) <==> exists|i: int| 0 <= i < s.len() && s[i].0@ == k,
    decreases s.len(),
{
    if s.len() == 0 {
    } else {
        lemma_fields_map_contains(s.drop_last(), k);
        if s.last().0@ == k {
            assert(s[s.len() - 1].0@ == k);
        } else {
            if fields_map(s).contains_key(k) {
                let i = choose|i: int| 0 <= i < s.drop_last().len() && s.drop_last()[i].0@ == k;
                assert(s[i].0@ == k);
            }
            if exists|i: int| 0 <= i < s.len() && s[i].0@ == k {
                let i = choose|i: int| 0 <= i < s.len() && s[i].0@ == k;
                assert(s.drop_last()[i].0@ == k);
            }
        }
    }
}

/// Encodes the snapshot as the file text of its map.
pub fn encode_snapshot(snap: &Snapshot) -> (r: String)
    ensures
        r@ == snapshot_text(snap@),
{
    to_json_text("inner", snap.entries())
}

/// Decodes file text into a snapshot; all-or-nothing, with no recovery on
/// text of any other shape.
pub fn decode_snapshot(text: &str) -> (r: Result<Snapshot, StoreError>)
    ensures
        r is Ok <==> decoded_snapshot(text@) is Some,
        r matches Ok(s) ==> s@ == decoded_snapshot(text@).unwrap() && s.wf(),
        r is Err ==> r == Result::<Snapshot, StoreError>::Err(StoreError::DecodeError),
        forall|m: Map<Seq<char>, Seq<char>>|
            (m.dom().finite() && text@ == snapshot_text(m)) ==> decoded_snapshot(text@) == Some(m),
{
    let fields = match from_json_text(text) {
        Some(fields) => fields,
        None => {
            return Err(StoreError::DecodeError);
        },
    };
    proof {
        lemma_round_trip_from_parsed(text@, fields@);
    }
    if fields.len() == 1 && fields[0].0 == "inner".to_owned() {
        let snap = Snapshot::from_entries(&fields[0].1);
        proof {
            reveal_strlit("inner");
            assert(fields@.last() == fields@[0]);
            assert(fields@[0].0@ == inner_field());
            assert(fields@.drop_last().len() == 0);
            assert(fields_map(fields@.drop_last()) == Map::<
                Seq<char>,
                Map<Seq<char>, Seq<char>>,
            >::empty());
            assert(fields_map(fields@) == Map::<Seq<char>, Map<Seq<char>, Seq<char>>>::empty()
                .insert(inner_field(), map_of(fields@[0].1@)));
            assert(fields_map(fields@).dom() =~= set![inner_field()]);
        }
        Ok(snap)
    } else {
        proof {
            let fm = fields_map(fields@);
            if fm.dom() == set![inner_field()] {
                lemma_fields_map_contains(fields@, inner_field());
                assert(fm.contains_key(inner_field()));
                let i = choose|i: int| 0 <= i < fields@.len() && fields@[i].0@ == inner_field();
                if fields@.len() > 1 {
                    let j = if i == 0 { 1int } else { 0int };
                    lemma_fields_map_contains(fields@, fields@[j].0@);
                    assert(fm.contains_key(fields@[j].0@));
                    assert(fields@[j].0@ == inner_field());
                    assert(false);
                } else {
                    assert(i == 0);
                    assert(fields@[0].0@ == inner_field());
                    assert(false);
                }
            }
        }
        Err(StoreError::DecodeError)
    }
}

/// Once the parser has succeeded on `text`, any map whose encoding is
/// `text` is exactly the parsed content of the one field "inner".
proof fn lemma_round_trip_from_parsed(
    text: Seq<char>,
    fields: Seq<(String, Vec<(String, String)>)>,
)
    requires
        parsed_fields(text) is Some,
        fields_map(fields) == parsed_fields(text).unwrap(),
        forall|f: Seq<char>, m: Map<Seq<char>, Seq<char>>|
            (m.dom().finite() && text == envelope_json(f, m)) ==> fields_map(fields) == map![f
                => m],
    ensures
        forall|m: Map<Seq<char>, Seq<char>>|
            (m.dom().finite() && text == snapshot_text(m)) ==> decoded_snapshot(text) == Some(m),
{
    assert forall|m: Map<Seq<char>, Seq<char>>|
        m.dom().finite() && text == snapshot_text(m) implies decoded_snapshot(text) == Some(m) by {
        assert(fields_map(fields) == map![inner_field() => m]);
        let fm = parsed_fields(text).unwrap();
        assert(fm.dom() =~= set![inner_field()]);
        assert(fm[inner_field()] == m);
    }
}

} // verus!
