//! The options builder for volume creation.
//!
//! A builder accumulates named JSON fields; `build` freezes them into an
//! immutable options value whose serialized form no later builder call can
//! touch. Setting a field that is already present keeps only the last
//! value, and keys stay unique.

use crate::error::Error;
use crate::json::{
    jview_obj, lemma_jview_obj, lookup, pairs_view, ser, write_obj, Json, JsonV,
};
use vstd::prelude::*;
use vstd::seq_lib::group_seq_lib_default;
use vstd::string::StringExecFns;

verus! {

broadcast use group_seq_lib_default;

/// Holds of a field whose key is another one.
pub open spec fn key_is_not(key: Seq<char>) -> spec_fn((Seq<char>, JsonV)) -> bool {
    |f: (Seq<char>, JsonV)| f.0 != key
}

/// Replaces every binding of a key by one binding at the end: the last
/// write to a field wins, and keys stay unique.
pub open spec fn upsert(
    fields: Seq<(Seq<char>, JsonV)>,
    key: Seq<char>,
    val: JsonV,
) -> Seq<(Seq<char>, JsonV)> {
    fields.filter(key_is_not(key)).push((key, val))
}

/// The object fields a map of strings accumulates to when its entries are
/// written in turn: of two entries with one key the later wins, and keys
/// stay unique.
pub open spec fn str_map_upserts(m: Seq<(Seq<char>, Seq<char>)>) -> Seq<(Seq<char>, JsonV)>
    decreases m.len(),
{
    if m.len() == 0 {
        Seq::empty()
    } else {
        upsert(str_map_upserts(m.drop_last()), m.last().0, JsonV::Str(m.last().1))
    }
}

/// A finalized, immutable request body for volume creation.
pub struct VolumeCreateOpts {
    params: Vec<(String, Json)>,
}

/// A fluent accumulator of the fields of a volume-creation request.
pub struct VolumeCreateOptsBuilder {
    params: Vec<(String, Json)>,
}

impl VolumeCreateOpts {
    /// The fields of the request body, in serialization order.
    pub closed spec fn fields(&self) -> Seq<(Seq<char>, JsonV)> {
        jview_obj(self.params@)
    }

    /// A fresh builder with no fields set.
    pub fn builder() -> (r: VolumeCreateOptsBuilder)
        ensures
            r.fields() == Seq::<(Seq<char>, JsonV)>::empty(),
    {
        VolumeCreateOptsBuilder { params: Vec::new() }
    }

    /// The request body as JSON text: always the object of exactly the
    /// accumulated fields, so the error leg is unreachable through the
    /// typed setters.
    pub fn serialize(&self) -> (r: Result<String, Error>)
        ensures
            r matches Ok(s) && s@ == ser(JsonV::Obj(self.fields())),
    {
        let mut out: Vec<char> = Vec::new();
        write_obj(&self.params, &mut out);
        Ok(crate::json::chars_to_string(&out))
    }
}

/// Inserts or overwrites one binding in a field list: the filtered rest,
/// then the new binding at the end.
#[verifier::loop_isolation(false)]
#[verifier::rlimit(30)]
fn upsert_field(params_in: Vec<(String, Json)>, key: String, val: Json) -> (r: Vec<
    (String, Json),
>)
    ensures
        jview_obj(r@) == upsert(jview_obj(params_in@), key@, val@),
{
    let ghost orig: Seq<(String, Json)> = params_in@;
    let ghost ov = jview_obj(orig);
    let ghost pred = key_is_not(key@);
    let mut params = params_in;
    let mut out: Vec<(String, Json)> = Vec::new();
    proof {
        lemma_jview_obj(orig);
        assert(ov.take(0) =~= Seq::<(Seq<char>, JsonV)>::empty());
        assert(jview_obj(out@) =~= Seq::<(Seq<char>, JsonV)>::empty());
        assert(Seq::<(Seq<char>, JsonV)>::empty().filter(pred) =~= Seq::<(
            Seq<char>,
            JsonV,
        )>::empty()) by {
            reveal_with_fuel(Seq::filter, 1);
        }
    }
    while params.len() > 0
        invariant
            params@.len() <= orig.len(),
            params@ =~= orig.skip(orig.len() - params@.len()),
            jview_obj(out@) == ov.take(orig.len() - params@.len()).filter(pred),
        decreases params@.len(),
    {
        let ghost k = orig.len() - params@.len();
        let f = params.remove(0);
        proof {
            assert(f == orig[k]);
            assert(ov.take(k + 1).drop_last() =~= ov.take(k as int));
            assert(ov.take(k + 1).last() == ov[k as int]);
            assert(ov.take(k + 1) =~= ov.take(k as int).push(ov[k as int]));
            reveal_with_fuel(Seq::filter, 1);
        }
        if !(f.0 == key) {
            let ghost before = out@;
            out.push(f);
            proof {
                assert(out@.drop_last() =~= before);
                lemma_jview_obj(out@);
                lemma_jview_obj(before);
                assert(jview_obj(out@) =~= jview_obj(before).push((f.0@, f.1@)));
            }
        }
        proof {
            assert(jview_obj(out@) == ov.take(k + 1).filter(pred));
        }
    }
    proof {
        assert(ov.take(orig.len() as int) =~= ov);
    }
    let ghost before = out@;
    out.push((key, val));
    proof {
        assert(out@.drop_last() =~= before);
        lemma_jview_obj(out@);
        lemma_jview_obj(before);
        assert(jview_obj(out@) =~= upsert(ov, key@, val@));
    }
    out
}

impl VolumeCreateOptsBuilder {
    /// The fields accumulated so far, in serialization order.
    pub closed spec fn fields(&self) -> Seq<(Seq<char>, JsonV)> {
        jview_obj(self.params@)
    }

    /// Inserts or overwrites one field.
    fn set_field(self, key: String, val: Json) -> (r: Self)
        ensures
            r.fields() == upsert(self.fields(), key@, val@),
    {
        VolumeCreateOptsBuilder { params: upsert_field(self.params, key, val) }
    }

    /// Sets a field to a string value.
    pub fn set_string(self, key: &str, value: &str) -> (r: Self)
        ensures
            r.fields() == upsert(self.fields(), key@, JsonV::Str(value@)),
    {
        self.set_field(String::from_str(key), Json::Str(String::from_str(value)))
    }

    /// Sets a field to a boolean value.
    pub fn set_bool(self, key: &str, value: bool) -> (r: Self)
        ensures
            r.fields() == upsert(self.fields(), key@, JsonV::Bool(value)),
    {
        self.set_field(String::from_str(key), Json::Bool(value))
    }

    /// Sets a field to a map of strings, as labels and driver options are
    /// sent: each entry is written in turn, so of two entries with one key
    /// the later wins and the object's keys stay unique, as they do in a
    /// map.
    #[verifier::loop_isolation(false)]
    pub fn set_map(self, key: &str, entries: &Vec<(String, String)>) -> (r: Self)
        ensures
            r.fields() == upsert(
                self.fields(),
                key@,
                JsonV::Obj(str_map_upserts(pairs_view(entries@))),
            ),
    {
        let ghost pv = pairs_view(entries@);
        let mut obj: Vec<(String, Json)> = Vec::new();
        proof {
            assert(pv.take(0) =~= Seq::<(Seq<char>, Seq<char>)>::empty());
            assert(jview_obj(obj@) =~= str_map_upserts(pv.take(0)));
        }
        for i in 0..entries.len()
            invariant
                jview_obj(obj@) == str_map_upserts(pv.take(i as int)),
        {
            obj = upsert_field(obj, entries[i].0.clone(), Json::Str(entries[i].1.clone()));
            proof {
                assert(pv.take(i + 1).drop_last() =~= pv.take(i as int));
                assert(pv.take(i + 1).last() == pv[i as int]);
            }
        }
        proof {
            assert(pv.take(entries@.len() as int) =~= pv);
        }
        self.set_field(String::from_str(key), Json::Obj(obj))
    }

    /// Sets the name of the volume to create; the daemon otherwise assigns
    /// one.
    pub fn name(self, name: &str) -> (r: Self)
        ensures
            r.fields() == upsert(self.fields(), "Name"@, JsonV::Str(name@)),
    {
        self.set_string("Name", name)
    }

    /// Sets the labels to attach to the volume.
    pub fn labels(self, labels: &Vec<(String, String)>) -> (r: Self)
        ensures
            r.fields() == upsert(
                self.fields(),
                "Labels"@,
                JsonV::Obj(str_map_upserts(pairs_view(labels@))),
            ),
    {
        self.set_map("Labels", labels)
    }

    /// Freezes the accumulated fields into an immutable options value.
    pub fn build(self) -> (r: VolumeCreateOpts)
        ensures
            r.fields() == self.fields(),
    {
        VolumeCreateOpts { params: self.params }
    }
}

/// Setting a field twice keeps only the last value: the later write
/// replaces the earlier one outright, and reading the field back yields
/// the last value written.
pub proof fn lemma_last_write_wins(
    fields: Seq<(Seq<char>, JsonV)>,
    key: Seq<char>,
    v1: JsonV,
    v2: JsonV,
)
    ensures
        upsert(upsert(fields, key, v1), key, v2) == upsert(fields, key, v2),
        lookup(upsert(fields, key, v1), key) == Some(v1),
{
    let pred = key_is_not(key);
    let filtered = fields.filter(pred);
    assert(filtered.push((key, v1)).drop_last() =~= filtered);
    reveal_with_fuel(Seq::filter, 1);
    assert(filtered.push((key, v1)).filter(pred) == filtered.filter(pred));
    lemma_filter_idempotent(fields, pred);
    assert(upsert(upsert(fields, key, v1), key, v2) =~= upsert(fields, key, v2));
    assert(upsert(fields, key, v1).last() == (key, v1));
}

/// Whether an object's keys are pairwise distinct.
pub open spec fn unique_keys(fields: Seq<(Seq<char>, JsonV)>) -> bool {
    forall|i: int, j: int| #![trigger fields[i].0, fields[j].0]
        0 <= i < j < fields.len() ==> fields[i].0 != fields[j].0
}

/// A key found after filtering was bound in the fields before.
proof fn lemma_filter_key_was_there(
    s: Seq<(Seq<char>, JsonV)>,
    pred: spec_fn((Seq<char>, JsonV)) -> bool,
    i: int,
)
    requires
        0 <= i < s.filter(pred).len(),
    ensures
        exists|j: int| 0 <= j < s.len() && s[j].0 == #[trigger] s.filter(pred)[i].0,
    decreases s.len(),
{
    reveal_with_fuel(Seq::filter, 1);
    if s.len() > 0 {
        let sub = s.drop_last().filter(pred);
        if pred(s.last()) && i == s.filter(pred).len() - 1 {
            assert(s[s.len() - 1].0 == s.filter(pred)[i].0);
        } else {
            assert(s.filter(pred)[i] == sub[i]);
            lemma_filter_key_was_there(s.drop_last(), pred, i);
            let j = choose|j: int|
                0 <= j < s.drop_last().len() && s.drop_last()[j].0 == sub[i].0;
            assert(s[j].0 == s.filter(pred)[i].0);
        }
    }
}

/// Filtering keeps pairwise-distinct keys pairwise distinct.
proof fn lemma_filter_keeps_unique_keys(
    s: Seq<(Seq<char>, JsonV)>,
    pred: spec_fn((Seq<char>, JsonV)) -> bool,
)
    requires
        unique_keys(s),
    ensures
        unique_keys(s.filter(pred)),
    decreases s.len(),
{
    reveal_with_fuel(Seq::filter, 1);
    if s.len() > 0 {
        assert forall|i: int, j: int| #![trigger s.drop_last()[i].0, s.drop_last()[j].0]
            0 <= i < j < s.drop_last().len() implies s.drop_last()[i].0 != s.drop_last()[j].0 by {
            assert(s.drop_last()[i].0 == s[i].0);
            assert(s.drop_last()[j].0 == s[j].0);
        }
        lemma_filter_keeps_unique_keys(s.drop_last(), pred);
        let sub = s.drop_last().filter(pred);
        if pred(s.last()) {
            assert forall|i: int| 0 <= i < sub.len() implies sub[i].0 != s.last().0 by {
                lemma_filter_key_was_there(s.drop_last(), pred, i);
                let j = choose|j: int|
                    0 <= j < s.drop_last().len() && s.drop_last()[j].0 == sub[i].0;
                assert(s[j].0 == sub[i].0);
                assert(s[j].0 != s[s.len() - 1].0);
            }
            let out = s.filter(pred);
            assert(out == sub.push(s.last()));
            assert forall|i: int, j: int| #![trigger out[i].0, out[j].0]
                0 <= i < j < out.len() implies out[i].0 != out[j].0 by {
                if j < out.len() - 1 {
                    assert(out[i].0 == sub[i].0 && out[j].0 == sub[j].0);
                } else {
                    assert(out[i].0 == sub[i].0 && out[j].0 == s.last().0);
                }
            }
        }
    }
}

/// The builder keeps its keys unique: writing a field into fields with
/// pairwise-distinct keys yields fields with pairwise-distinct keys, so
/// every list of fields grown from the empty builder has each field once.
pub proof fn lemma_upsert_keeps_unique_keys(
    fields: Seq<(Seq<char>, JsonV)>,
    key: Seq<char>,
    val: JsonV,
)
    requires
        unique_keys(fields),
    ensures
        unique_keys(upsert(fields, key, val)),
{
    let pred = key_is_not(key);
    let f = fields.filter(pred);
    lemma_filter_keeps_unique_keys(fields, pred);
    let out = upsert(fields, key, val);
    assert forall|i: int, j: int| #![trigger out[i].0, out[j].0]
        0 <= i < j < out.len() implies out[i].0 != out[j].0 by {
        if j < out.len() - 1 {
            assert(out[i].0 == f[i].0 && out[j].0 == f[j].0);
        } else {
            assert(out[i].0 == f[i].0 && out[j].0 == key);
            fields.lemma_filter_pred(pred, i);
            assert(pred(f[i]));
        }
    }
}

/// A map of strings written entry by entry keeps its keys pairwise
/// distinct, however many entries share a key.
pub proof fn lemma_str_map_upserts_unique_keys(m: Seq<(Seq<char>, Seq<char>)>)
    ensures
        unique_keys(str_map_upserts(m)),
    decreases m.len(),
{
    if m.len() > 0 {
        lemma_str_map_upserts_unique_keys(m.drop_last());
        lemma_upsert_keeps_unique_keys(
            str_map_upserts(m.drop_last()),
            m.last().0,
            JsonV::Str(m.last().1),
        );
    }
}

/// Filtering a second time by the same predicate changes nothing.
proof fn lemma_filter_idempotent<A>(s: Seq<A>, pred: spec_fn(A) -> bool)
    ensures
        s.filter(pred).filter(pred) == s.filter(pred),
    decreases s.len(),
{
    reveal_with_fuel(Seq::filter, 1);
    if s.len() == 0 {
        assert(s.filter(pred).filter(pred) =~= s.filter(pred));
    } else {
        lemma_filter_idempotent(s.drop_last(), pred);
        let sub = s.drop_last().filter(pred);
        if pred(s.last()) {
            assert(sub.push(s.last()).drop_last() =~= sub);
            assert(s.filter(pred) == sub.push(s.last()));
            assert(s.filter(pred).filter(pred) == sub.filter(pred).push(s.last()));
        }
    }
}

} // verus!
