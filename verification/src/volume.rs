//! Typed requests and responses of the volume endpoints.
//!
//! Each endpoint is split into the half that builds the request and the
//! half that interprets the daemon's answer; the transport in between is
//! the caller's. Response objects may carry fields this client does not
//! know — those are ignored — and optional fields decode to an explicit
//! absent state, never to a stand-in value.
//!
//! Creation stamps come in two readings, chosen at the interface: the
//! plain one keeps the daemon's text verbatim (`VolumeInfo`,
//! `list_response`), the timestamp-enabled one decodes it to a structured
//! instant and treats a malformed stamp as a decode error
//! (`TimestampedVolumeInfo`, `list_response_timestamped`).

use crate::error::Error;
use crate::json::{
    jview_obj, lemma_jview_obj, lookup, lookup_field, pairs_view, parse_json, parsed_json, ser,
    str_map_fields, Json, JsonV,
};
use crate::opts::VolumeCreateOpts;
use crate::timestamp::{rfc3339_instant, parse_rfc3339, Timestamp};
use vstd::prelude::*;
use vstd::string::StringExecFns;

verus! {

/// Labels attached to a volume, as key/value pairs with unique keys.
pub type Labels = Vec<(String, String)>;

/// Driver-specific options of a volume, as key/value pairs with unique
/// keys.
pub type DriverOpts = Vec<(String, String)>;

/// What volume creation returns: at least the volume's identity.
#[derive(Debug, PartialEq)]
pub struct VolumeCreateInfo {
    pub name: String,
}

/// The shape of a creation response.
pub ghost struct VolumeCreateInfoV {
    pub name: Seq<char>,
}

impl View for VolumeCreateInfo {
    type V = VolumeCreateInfoV;

    open spec fn view(&self) -> VolumeCreateInfoV {
        VolumeCreateInfoV { name: self.name@ }
    }
}

/// One volume as the daemon describes it. The creation stamp stays the
/// daemon's text; `created_at_instant` reads it as an instant on demand.
#[derive(Debug, PartialEq)]
pub struct VolumeInfo {
    pub created_at: String,
    pub driver: String,
    pub labels: Option<Labels>,
    pub name: String,
    pub mountpoint: String,
    pub options: Option<DriverOpts>,
    pub scope: String,
}

/// The shape of a volume description.
pub ghost struct VolumeInfoV {
    pub created_at: Seq<char>,
    pub driver: Seq<char>,
    pub labels: Option<Seq<(Seq<char>, Seq<char>)>>,
    pub name: Seq<char>,
    pub mountpoint: Seq<char>,
    pub options: Option<Seq<(Seq<char>, Seq<char>)>>,
    pub scope: Seq<char>,
}

impl View for VolumeInfo {
    type V = VolumeInfoV;

    open spec fn view(&self) -> VolumeInfoV {
        VolumeInfoV {
            created_at: self.created_at@,
            driver: self.driver@,
            labels: match self.labels {
                Some(l) => Some(pairs_view(l@)),
                None => None,
            },
            name: self.name@,
            mountpoint: self.mountpoint@,
            options: match self.options {
                Some(o) => Some(pairs_view(o@)),
                None => None,
            },
            scope: self.scope@,
        }
    }
}

/// The wrapper object the listing endpoint answers with: the list may be
/// absent, and warnings ride along as a side channel.
#[derive(Debug, PartialEq)]
pub struct VolumesInfo {
    pub volumes: Option<Vec<VolumeInfo>>,
    pub warnings: Option<Vec<String>>,
}

/// The shape of a listing response.
pub ghost struct VolumesInfoV {
    pub volumes: Option<Seq<VolumeInfoV>>,
    pub warnings: Option<Seq<Seq<char>>>,
}

impl View for VolumesInfo {
    type V = VolumesInfoV;

    open spec fn view(&self) -> VolumesInfoV {
        VolumesInfoV {
            volumes: match self.volumes {
                Some(v) => Some(infos_view(v@)),
                None => None,
            },
            warnings: match self.warnings {
                Some(w) => Some(strings_view(w@)),
                None => None,
            },
        }
    }
}

/// The string under a key, if the key is bound to a string.
pub open spec fn get_str(fields: Seq<(Seq<char>, JsonV)>, key: Seq<char>) -> Option<Seq<char>> {
    match lookup(fields, key) {
        Some(JsonV::Str(s)) => Some(s),
        _ => None,
    }
}

/// An object's fields read back as a map of strings; nothing when a value
/// is not a string.
pub open spec fn str_map_of(fields: Seq<(Seq<char>, JsonV)>) -> Option<
    Seq<(Seq<char>, Seq<char>)>,
>
    decreases fields.len(),
{
    if fields.len() == 0 {
        Some(Seq::empty())
    } else {
        match (str_map_of(fields.drop_last()), fields.last().1) {
            (Some(m), JsonV::Str(s)) => Some(m.push((fields.last().0, s))),
            _ => None,
        }
    }
}

/// An optional map field: absent or null is an explicit none, an object of
/// strings is the map, anything else fails.
pub open spec fn get_opt_str_map(fields: Seq<(Seq<char>, JsonV)>, key: Seq<char>) -> Option<
    Option<Seq<(Seq<char>, Seq<char>)>>,
> {
    match lookup(fields, key) {
        None => Some(None),
        Some(JsonV::Null) => Some(None),
        Some(JsonV::Obj(fs)) => match str_map_of(fs) {
            Some(m) => Some(Some(m)),
            None => None,
        },
        Some(_) => None,
    }
}

/// The JSON value an optional map of strings encodes to: null when absent.
pub open spec fn opt_map_json(m: Option<Seq<(Seq<char>, Seq<char>)>>) -> JsonV {
    match m {
        Some(m) => JsonV::Obj(str_map_fields(m)),
        None => JsonV::Null,
    }
}

/// The JSON object a creation response encodes to.
pub open spec fn spec_encode_volume_create_info(v: VolumeCreateInfoV) -> JsonV {
    JsonV::Obj(seq![("Name"@, JsonV::Str(v.name))])
}

/// The creation response a JSON value decodes to, if it is an object with
/// a string name; other fields are ignored.
pub open spec fn spec_decode_volume_create_info(j: JsonV) -> Option<VolumeCreateInfoV> {
    match j {
        JsonV::Obj(fs) => match get_str(fs, "Name"@) {
            Some(n) => Some(VolumeCreateInfoV { name: n }),
            None => None,
        },
        _ => None,
    }
}

/// The JSON object a volume description encodes to, with the wire names
/// the daemon uses.
pub open spec fn spec_encode_volume_info(v: VolumeInfoV) -> JsonV {
    JsonV::Obj(
        seq![
            ("CreatedAt"@, JsonV::Str(v.created_at)),
            ("Driver"@, JsonV::Str(v.driver)),
            ("Labels"@, opt_map_json(v.labels)),
            ("Name"@, JsonV::Str(v.name)),
            ("Mountpoint"@, JsonV::Str(v.mountpoint)),
            ("Options"@, opt_map_json(v.options)),
            ("Scope"@, JsonV::Str(v.scope)),
        ],
    )
}

/// The volume description a JSON value decodes to: an object whose five
/// string fields are present and whose two map fields are well-formed when
/// present; unknown fields are ignored.
pub open spec fn spec_decode_volume_info(j: JsonV) -> Option<VolumeInfoV> {
    match j {
        JsonV::Obj(fs) => {
            if get_str(fs, "CreatedAt"@) is Some && get_str(fs, "Driver"@) is Some && get_str(
                fs,
                "Name"@,
            ) is Some && get_str(fs, "Mountpoint"@) is Some && get_str(fs, "Scope"@) is Some
                && get_opt_str_map(fs, "Labels"@) is Some && get_opt_str_map(
                fs,
                "Options"@,
            ) is Some {
                Some(
                    VolumeInfoV {
                        created_at: get_str(fs, "CreatedAt"@)->Some_0,
                        driver: get_str(fs, "Driver"@)->Some_0,
                        labels: get_opt_str_map(fs, "Labels"@)->Some_0,
                        name: get_str(fs, "Name"@)->Some_0,
                        mountpoint: get_str(fs, "Mountpoint"@)->Some_0,
                        options: get_opt_str_map(fs, "Options"@)->Some_0,
                        scope: get_str(fs, "Scope"@)->Some_0,
                    },
                )
            } else {
                None
            }
        },
        _ => None,
    }
}

/// The volume descriptions of an array, if every element decodes.
pub open spec fn volumes_of(items: Seq<JsonV>) -> Option<Seq<VolumeInfoV>>
    decreases items.len(),
{
    if items.len() == 0 {
        Some(Seq::empty())
    } else {
        match (volumes_of(items.drop_last()), spec_decode_volume_info(items.last())) {
            (Some(vs), Some(v)) => Some(vs.push(v)),
            _ => None,
        }
    }
}

/// The strings of an array, if every element is a string.
pub open spec fn strings_of(items: Seq<JsonV>) -> Option<Seq<Seq<char>>>
    decreases items.len(),
{
    if items.len() == 0 {
        Some(Seq::empty())
    } else {
        match (strings_of(items.drop_last()), items.last()) {
            (Some(ws), JsonV::Str(s)) => Some(ws.push(s)),
            _ => None,
        }
    }
}

/// An optional array field of volume descriptions: absent or null is an
/// explicit none.
pub open spec fn get_opt_volumes(fields: Seq<(Seq<char>, JsonV)>, key: Seq<char>) -> Option<
    Option<Seq<VolumeInfoV>>,
> {
    match lookup(fields, key) {
        None => Some(None),
        Some(JsonV::Null) => Some(None),
        Some(JsonV::Arr(items)) => match volumes_of(items) {
            Some(vs) => Some(Some(vs)),
            None => None,
        },
        Some(_) => None,
    }
}

/// An optional array field of strings: absent or null is an explicit none.
pub open spec fn get_opt_strings(fields: Seq<(Seq<char>, JsonV)>, key: Seq<char>) -> Option<
    Option<Seq<Seq<char>>>,
> {
    match lookup(fields, key) {
        None => Some(None),
        Some(JsonV::Null) => Some(None),
        Some(JsonV::Arr(items)) => match strings_of(items) {
            Some(ws) => Some(Some(ws)),
            None => None,
        },
        Some(_) => None,
    }
}

/// The listing response a JSON value decodes to: a wrapper object whose
/// list and warnings may each be absent.
pub open spec fn spec_decode_volumes_info(j: JsonV) -> Option<VolumesInfoV> {
    match j {
        JsonV::Obj(fs) => match (get_opt_volumes(fs, "Volumes"@), get_opt_strings(
            fs,
            "Warnings"@,
        )) {
            (Some(vs), Some(ws)) => Some(VolumesInfoV { volumes: vs, warnings: ws }),
            _ => None,
        },
        _ => None,
    }
}

/// The shapes of a sequence of volume descriptions.
pub open spec fn infos_view(vs: Seq<VolumeInfo>) -> Seq<VolumeInfoV> {
    Seq::new(vs.len(), |i: int| vs[i]@)
}

/// The shapes of a sequence of strings.
pub open spec fn strings_view(ws: Seq<String>) -> Seq<Seq<char>> {
    Seq::new(ws.len(), |i: int| ws[i]@)
}

/// Once one value of an object is not a string, the object is no map of
/// strings.
proof fn lemma_str_map_of_stops(fields: Seq<(Seq<char>, JsonV)>, i: int)
    requires
        0 <= i < fields.len(),
        !(fields[i].1 is Str),
    ensures
        str_map_of(fields) is None,
    decreases fields.len(),
{
    if i < fields.len() - 1 {
        lemma_str_map_of_stops(fields.drop_last(), i);
    }
}

/// Once one element of an array does not decode, the array yields no
/// volume list.
proof fn lemma_volumes_of_stops(items: Seq<JsonV>, i: int)
    requires
        0 <= i < items.len(),
        spec_decode_volume_info(items[i]) is None,
    ensures
        volumes_of(items) is None,
    decreases items.len(),
{
    if i < items.len() - 1 {
        lemma_volumes_of_stops(items.drop_last(), i);
    }
}

/// Once one element of an array is not a string, the array yields no
/// warning list.
proof fn lemma_strings_of_stops(items: Seq<JsonV>, i: int)
    requires
        0 <= i < items.len(),
        !(items[i] is Str),
    ensures
        strings_of(items) is None,
    decreases items.len(),
{
    if i < items.len() - 1 {
        lemma_strings_of_stops(items.drop_last(), i);
    }
}

/// The string bound to a key, if the key is bound to a string.
fn get_str_field(fields: &Vec<(String, Json)>, key: &str) -> (r: Option<String>)
    ensures
        match r {
            Some(s) => get_str(jview_obj(fields@), key@) == Some(s@),
            None => get_str(jview_obj(fields@), key@) is None,
        },
{
    let k = String::from_str(key);
    match lookup_field(fields, &k) {
        Some(Json::Str(s)) => Some(s.clone()),
        _ => None,
    }
}

/// Reads an object as a map of strings.
#[verifier::loop_isolation(false)]
fn str_map_entries(fields: &Vec<(String, Json)>) -> (r: Option<Vec<(String, String)>>)
    ensures
        match r {
            Some(m) => str_map_of(jview_obj(fields@)) == Some(pairs_view(m@)),
            None => str_map_of(jview_obj(fields@)) is None,
        },
{
    proof {
        lemma_jview_obj(fields@);
    }
    let ghost fv = jview_obj(fields@);
    let mut out: Vec<(String, String)> = Vec::new();
    proof {
        assert(fv.take(0) =~= Seq::<(Seq<char>, JsonV)>::empty());
        assert(pairs_view(out@) =~= Seq::<(Seq<char>, Seq<char>)>::empty());
    }
    for i in 0..fields.len()
        invariant
            str_map_of(fv.take(i as int)) == Some(pairs_view(out@)),
    {
        match &fields[i].1 {
            Json::Str(s) => {
                let ghost before = out@;
                out.push((fields[i].0.clone(), s.clone()));
                proof {
                    assert(fv.take(i + 1).drop_last() =~= fv.take(i as int));
                    assert(fv.take(i + 1).last() == fv[i as int]);
                    assert(pairs_view(out@) =~= pairs_view(before).push(
                        (fields@[i as int].0@, s@),
                    ));
                }
            },
            _ => {
                proof {
                    lemma_str_map_of_stops(fv, i as int);
                }
                return None;
            },
        }
    }
    proof {
        assert(fv.take(fields@.len() as int) =~= fv);
    }
    Some(out)
}

/// Reads an optional map field: absent or null is an explicit none.
fn get_opt_map_field(fields: &Vec<(String, Json)>, key: &str) -> (r: Option<
    Option<Vec<(String, String)>>,
>)
    ensures
        match r {
            Some(Some(m)) => get_opt_str_map(jview_obj(fields@), key@) == Some(
                Some(pairs_view(m@)),
            ),
            Some(None) => get_opt_str_map(jview_obj(fields@), key@) == Some(
                None::<Seq<(Seq<char>, Seq<char>)>>,
            ),
            None => get_opt_str_map(jview_obj(fields@), key@) is None,
        },
{
    let k = String::from_str(key);
    match lookup_field(fields, &k) {
        None => Some(None),
        Some(Json::Null) => Some(None),
        Some(Json::Obj(fs)) => match str_map_entries(fs) {
            Some(m) => Some(Some(m)),
            None => None,
        },
        Some(_) => None,
    }
}

/// Decodes a creation response; fields this client does not know are
/// ignored.
pub fn decode_volume_create_info(j: &Json) -> (r: Option<VolumeCreateInfo>)
    ensures
        match r {
            Some(v) => spec_decode_volume_create_info(j@) == Some(v@),
            None => spec_decode_volume_create_info(j@) is None,
        },
{
    let fields = match j {
        Json::Obj(fields) => fields,
        _ => {
            return None;
        },
    };
    match get_str_field(fields, "Name") {
        Some(name) => Some(VolumeCreateInfo { name }),
        None => None,
    }
}

/// Decodes one volume description; fields this client does not know are
/// ignored, and absent optional fields come out as an explicit none.
pub fn decode_volume_info(j: &Json) -> (r: Option<VolumeInfo>)
    ensures
        match r {
            Some(v) => spec_decode_volume_info(j@) == Some(v@),
            None => spec_decode_volume_info(j@) is None,
        },
{
    let fields = match j {
        Json::Obj(fields) => fields,
        _ => {
            return None;
        },
    };
    let created_at = match get_str_field(fields, "CreatedAt") {
        Some(s) => s,
        None => {
            return None;
        },
    };
    let driver = match get_str_field(fields, "Driver") {
        Some(s) => s,
        None => {
            return None;
        },
    };
    let name = match get_str_field(fields, "Name") {
        Some(s) => s,
        None => {
            return None;
        },
    };
    let mountpoint = match get_str_field(fields, "Mountpoint") {
        Some(s) => s,
        None => {
            return None;
        },
    };
    let scope = match get_str_field(fields, "Scope") {
        Some(s) => s,
        None => {
            return None;
        },
    };
    let labels = match get_opt_map_field(fields, "Labels") {
        Some(l) => l,
        None => {
            return None;
        },
    };
    let options = match get_opt_map_field(fields, "Options") {
        Some(o) => o,
        None => {
            return None;
        },
    };
    Some(VolumeInfo { created_at, driver, labels, name, mountpoint, options, scope })
}

/// Decodes the elements of the volume list.
#[verifier::loop_isolation(false)]
fn volume_items(items: &Vec<Json>) -> (r: Option<Vec<VolumeInfo>>)
    ensures
        match r {
            Some(vs) => volumes_of(crate::json::jview_arr(items@)) == Some(infos_view(vs@)),
            None => volumes_of(crate::json::jview_arr(items@)) is None,
        },
{
    proof {
        crate::json::lemma_jview_arr(items@);
    }
    let ghost iv = crate::json::jview_arr(items@);
    let mut out: Vec<VolumeInfo> = Vec::new();
    proof {
        assert(iv.take(0) =~= Seq::<JsonV>::empty());
        assert(infos_view(out@) =~= Seq::<VolumeInfoV>::empty());
    }
    for i in 0..items.len()
        invariant
            volumes_of(iv.take(i as int)) == Some(infos_view(out@)),
    {
        match decode_volume_info(&items[i]) {
            Some(v) => {
                let ghost before = out@;
                let ghost vv = v@;
                out.push(v);
                proof {
                    assert(iv.take(i + 1).drop_last() =~= iv.take(i as int));
                    assert(iv.take(i + 1).last() == iv[i as int]);
                    assert(infos_view(out@) =~= infos_view(before).push(vv));
                }
            },
            None => {
                proof {
                    lemma_volumes_of_stops(iv, i as int);
                }
                return None;
            },
        }
    }
    proof {
        assert(iv.take(items@.len() as int) =~= iv);
    }
    Some(out)
}

/// Decodes the elements of the warning list.
#[verifier::loop_isolation(false)]
fn warning_items(items: &Vec<Json>) -> (r: Option<Vec<String>>)
    ensures
        match r {
            Some(ws) => strings_of(crate::json::jview_arr(items@)) == Some(strings_view(ws@)),
            None => strings_of(crate::json::jview_arr(items@)) is None,
        },
{
    proof {
        crate::json::lemma_jview_arr(items@);
    }
    let ghost iv = crate::json::jview_arr(items@);
    let mut out: Vec<String> = Vec::new();
    proof {
        assert(iv.take(0) =~= Seq::<JsonV>::empty());
        assert(strings_view(out@) =~= Seq::<Seq<char>>::empty());
    }
    for i in 0..items.len()
        invariant
            strings_of(iv.take(i as int)) == Some(strings_view(out@)),
    {
        match &items[i] {
            Json::Str(s) => {
                let ghost before = out@;
                out.push(s.clone());
                proof {
                    assert(iv.take(i + 1).drop_last() =~= iv.take(i as int));
                    assert(iv.take(i + 1).last() == iv[i as int]);
                    assert(strings_view(out@) =~= strings_view(before).push(s@));
                }
            },
            _ => {
                proof {
                    lemma_strings_of_stops(iv, i as int);
                }
                return None;
            },
        }
    }
    proof {
        assert(iv.take(items@.len() as int) =~= iv);
    }
    Some(out)
}

/// Decodes the listing wrapper; the list and the warnings may each be
/// absent.
pub fn decode_volumes_info(j: &Json) -> (r: Option<VolumesInfo>)
    ensures
        match r {
            Some(w) => spec_decode_volumes_info(j@) == Some(w@),
            None => spec_decode_volumes_info(j@) is None,
        },
{
    let fields = match j {
        Json::Obj(fields) => fields,
        _ => {
            return None;
        },
    };
    let k_volumes = String::from_str("Volumes");
    let volumes = match lookup_field(fields, &k_volumes) {
        None => None,
        Some(Json::Null) => None,
        Some(Json::Arr(items)) => match volume_items(items) {
            Some(vs) => Some(vs),
            None => {
                return None;
            },
        },
        Some(_) => {
            return None;
        },
    };
    let k_warnings = String::from_str("Warnings");
    let warnings = match lookup_field(fields, &k_warnings) {
        None => None,
        Some(Json::Null) => None,
        Some(Json::Arr(items)) => match warning_items(items) {
            Some(ws) => Some(ws),
            None => {
                return None;
            },
        },
        Some(_) => {
            return None;
        },
    };
    Some(VolumesInfo { volumes, warnings })
}

/// Encodes a map of strings as a JSON object.
#[verifier::loop_isolation(false)]
pub fn str_map_to_json(entries: &Vec<(String, String)>) -> (r: Json)
    ensures
        r@ == JsonV::Obj(str_map_fields(pairs_view(entries@))),
{
    let ghost target = str_map_fields(pairs_view(entries@));
    let mut obj: Vec<(String, Json)> = Vec::new();
    proof {
        lemma_jview_obj(obj@);
        assert(jview_obj(obj@) =~= target.take(0));
    }
    for i in 0..entries.len()
        invariant
            jview_obj(obj@) == target.take(i as int),
    {
        let ghost before = obj@;
        obj.push((entries[i].0.clone(), Json::Str(entries[i].1.clone())));
        proof {
            assert(obj@.drop_last() =~= before);
            lemma_jview_obj(obj@);
            lemma_jview_obj(before);
            assert(jview_obj(obj@) =~= target.take(i + 1));
        }
    }
    proof {
        assert(target.take(entries@.len() as int) =~= target);
    }
    Json::Obj(obj)
}

/// Encodes an optional map of strings: null when absent.
fn opt_map_to_json(m: &Option<Vec<(String, String)>>) -> (r: Json)
    ensures
        r@ == opt_map_json(
            match m {
                Some(l) => Some(pairs_view(l@)),
                None => None,
            },
        ),
{
    match m {
        Some(l) => str_map_to_json(l),
        None => Json::Null,
    }
}

/// Encodes a creation response, with the wire names the daemon uses.
pub fn encode_volume_create_info(v: &VolumeCreateInfo) -> (r: Json)
    ensures
        r@ == spec_encode_volume_create_info(v@),
{
    let mut fields: Vec<(String, Json)> = Vec::new();
    fields.push((String::from_str("Name"), Json::Str(v.name.clone())));
    proof {
        lemma_jview_obj(fields@);
        assert(jview_obj(fields@) =~= spec_encode_volume_create_info(v@)->Obj_0);
    }
    Json::Obj(fields)
}

/// Encodes a volume description, with the wire names the daemon uses.
pub fn encode_volume_info(v: &VolumeInfo) -> (r: Json)
    ensures
        r@ == spec_encode_volume_info(v@),
{
    let mut fields: Vec<(String, Json)> = Vec::new();
    fields.push((String::from_str("CreatedAt"), Json::Str(v.created_at.clone())));
    fields.push((String::from_str("Driver"), Json::Str(v.driver.clone())));
    fields.push((String::from_str("Labels"), opt_map_to_json(&v.labels)));
    fields.push((String::from_str("Name"), Json::Str(v.name.clone())));
    fields.push((String::from_str("Mountpoint"), Json::Str(v.mountpoint.clone())));
    fields.push((String::from_str("Options"), opt_map_to_json(&v.options)));
    fields.push((String::from_str("Scope"), Json::Str(v.scope.clone())));
    proof {
        lemma_jview_obj(fields@);
        assert(jview_obj(fields@) =~= spec_encode_volume_info(v@)->Obj_0);
    }
    Json::Obj(fields)
}

/// Whether an HTTP status reports success.
pub open spec fn is_success(status: u16) -> bool {
    200 <= status < 300
}

/// The message an error response carries: the `message` field of its JSON
/// body when there is one, else the body itself, unmodified either way.
pub open spec fn error_message(body: Seq<char>) -> Seq<char> {
    match parsed_json(body) {
        Some(JsonV::Obj(fs)) => match get_str(fs, "message"@) {
            Some(m) => m,
            None => body,
        },
        _ => body,
    }
}

/// Turns a non-2xx answer into the API error that carries it.
fn api_error(status: u16, body: &str) -> (r: Error)
    ensures
        r matches Error::Api { status: s, message: m } && s == status && m@ == error_message(
            body@,
        ),
{
    let message = match parse_json(body) {
        Some(Json::Obj(fields)) => match get_str_field(&fields, "message") {
            Some(m) => m,
            None => body.to_owned(),
        },
        _ => body.to_owned(),
    };
    Error::Api { status, message }
}

/// Whether a status reports success.
fn status_ok(status: u16) -> (r: bool)
    ensures
        r == is_success(status),
{
    200 <= status && status < 300
}

/// The request that creates a volume: the creation path and the options,
/// serialized. Serialization cannot fail through the typed builders, so
/// the request always carries exactly the accumulated fields.
pub fn create_request(opts: &VolumeCreateOpts) -> (r: (String, String))
    ensures
        r.0@ == "/volumes/create"@,
        r.1@ == ser(JsonV::Obj(opts.fields())),
{
    let body = match opts.serialize() {
        Ok(b) => b,
        Err(_) => vstd::pervasive::unreached(),
    };
    (String::from_str("/volumes/create"), body)
}

/// What creation returns for a daemon answer: the typed identity on a
/// well-formed 2xx body, the API error with the daemon's message on any
/// other status, and a decode error — never a partial value — on a body
/// that does not parse or does not match the schema.
pub fn create_response(status: u16, body: &str) -> (r: Result<VolumeCreateInfo, Error>)
    ensures
        !is_success(status) ==> (r matches Err(Error::Api { status: s, message: m }) && s == status
            && m@ == error_message(body@)),
        is_success(status) ==> match parsed_json(body@) {
            None => r == Err::<VolumeCreateInfo, Error>(Error::Decode),
            Some(j) => match spec_decode_volume_create_info(j) {
                None => r == Err::<VolumeCreateInfo, Error>(Error::Decode),
                Some(vi) => r matches Ok(v) && v@ == vi,
            },
        },
{
    if !status_ok(status) {
        return Err(api_error(status, body));
    }
    match parse_json(body) {
        None => Err(Error::Decode),
        Some(j) => match decode_volume_create_info(&j) {
            None => Err(Error::Decode),
            Some(v) => Ok(v),
        },
    }
}

/// The path the listing request goes to.
pub fn list_request() -> (r: String)
    ensures
        r@ == "/volumes"@,
{
    String::from_str("/volumes")
}

/// What listing returns for a daemon answer: the volumes of the wrapper —
/// the empty sequence when the list field is absent, never an error for
/// that — the API error on a non-2xx status, and a decode error on a body
/// that does not parse or does not match the schema.
pub fn list_response(status: u16, body: &str) -> (r: Result<Vec<VolumeInfo>, Error>)
    ensures
        !is_success(status) ==> (r matches Err(Error::Api { status: s, message: m }) && s == status
            && m@ == error_message(body@)),
        is_success(status) ==> match parsed_json(body@) {
            None => r == Err::<Vec<VolumeInfo>, Error>(Error::Decode),
            Some(j) => match spec_decode_volumes_info(j) {
                None => r == Err::<Vec<VolumeInfo>, Error>(Error::Decode),
                Some(w) => r matches Ok(v) && infos_view(v@) == (match w.volumes {
                    Some(vs) => vs,
                    None => Seq::<VolumeInfoV>::empty(),
                }),
            },
        },
{
    if !status_ok(status) {
        return Err(api_error(status, body));
    }
    match parse_json(body) {
        None => Err(Error::Decode),
        Some(j) => match decode_volumes_info(&j) {
            None => Err(Error::Decode),
            Some(w) => match w.volumes {
                Some(v) => Ok(v),
                None => {
                    let empty: Vec<VolumeInfo> = Vec::new();
                    proof {
                        assert(infos_view(empty@) =~= Seq::<VolumeInfoV>::empty());
                    }
                    Ok(empty)
                },
            },
        },
    }
}

/// The path that deletes a named volume.
pub fn delete_request(name: &str) -> (r: String)
    ensures
        r@ == "/volumes/"@ + name@,
{
    String::from_str("/volumes/").concat(name)
}

/// What deletion returns for a daemon answer: success on any 2xx, and on
/// any other status the API error with the daemon's message passed through
/// unmodified — deleting a volume that is already gone surfaces whatever
/// the daemon said, not an invented success.
pub fn delete_response(status: u16, body: &str) -> (r: Result<(), Error>)
    ensures
        is_success(status) ==> r == Ok::<(), Error>(()),
        !is_success(status) ==> (r matches Err(Error::Api { status: s, message: m }) && s == status
            && m@ == error_message(body@)),
{
    if status_ok(status) {
        Ok(())
    } else {
        Err(api_error(status, body))
    }
}

impl VolumeInfo {
    /// Reads the creation stamp as a structured instant, when the daemon
    /// sent a well-formed RFC 3339 stamp.
    pub fn created_at_instant(&self) -> (r: Option<Timestamp>)
        ensures
            match r {
                Some(t) => rfc3339_instant(self.created_at@) == Some((t.secs, t.nanos)),
                None => rfc3339_instant(self.created_at@) is None,
            },
    {
        parse_rfc3339(self.created_at.as_str())
    }

    /// Reads this description in the timestamp-enabled mode: the stamp
    /// becomes a structured instant, and a malformed stamp is a decode
    /// error, as any other schema mismatch is.
    pub fn into_timestamped(self) -> (r: Result<TimestampedVolumeInfo, Error>)
        ensures
            match spec_timestamped(self@) {
                Some(tv) => r matches Ok(t) && t@ == tv,
                None => r == Err::<TimestampedVolumeInfo, Error>(Error::Decode),
            },
    {
        match parse_rfc3339(self.created_at.as_str()) {
            Some(t) => Ok(
                TimestampedVolumeInfo {
                    created_at: t,
                    driver: self.driver,
                    labels: self.labels,
                    name: self.name,
                    mountpoint: self.mountpoint,
                    options: self.options,
                    scope: self.scope,
                },
            ),
            None => Err(Error::Decode),
        }
    }
}

/// One volume in the timestamp-enabled reading: the creation stamp as a
/// structured, timezone-aware instant, every other field as the daemon
/// sent it.
#[derive(Debug, PartialEq)]
pub struct TimestampedVolumeInfo {
    pub created_at: Timestamp,
    pub driver: String,
    pub labels: Option<Labels>,
    pub name: String,
    pub mountpoint: String,
    pub options: Option<DriverOpts>,
    pub scope: String,
}

/// The shape of a timestamped volume description.
pub ghost struct TimestampedVolumeInfoV {
    pub created_at: Timestamp,
    pub driver: Seq<char>,
    pub labels: Option<Seq<(Seq<char>, Seq<char>)>>,
    pub name: Seq<char>,
    pub mountpoint: Seq<char>,
    pub options: Option<Seq<(Seq<char>, Seq<char>)>>,
    pub scope: Seq<char>,
}

impl View for TimestampedVolumeInfo {
    type V = TimestampedVolumeInfoV;

    open spec fn view(&self) -> TimestampedVolumeInfoV {
        TimestampedVolumeInfoV {
            created_at: self.created_at,
            driver: self.driver@,
            labels: match self.labels {
                Some(l) => Some(pairs_view(l@)),
                None => None,
            },
            name: self.name@,
            mountpoint: self.mountpoint@,
            options: match self.options {
                Some(o) => Some(pairs_view(o@)),
                None => None,
            },
            scope: self.scope@,
        }
    }
}

/// The timestamp-enabled reading of a description: the instant its stamp
/// denotes, or nothing when the stamp is malformed.
pub open spec fn spec_timestamped(v: VolumeInfoV) -> Option<TimestampedVolumeInfoV> {
    match rfc3339_instant(v.created_at) {
        Some(t) => Some(
            TimestampedVolumeInfoV {
                created_at: Timestamp { secs: t.0, nanos: t.1 },
                driver: v.driver,
                labels: v.labels,
                name: v.name,
                mountpoint: v.mountpoint,
                options: v.options,
                scope: v.scope,
            },
        ),
        None => None,
    }
}

/// The timestamp-enabled readings of a sequence of descriptions, if every
/// stamp is well-formed.
pub open spec fn spec_timestamped_seq(vs: Seq<VolumeInfoV>) -> Option<
    Seq<TimestampedVolumeInfoV>,
>
    decreases vs.len(),
{
    if vs.len() == 0 {
        Some(Seq::empty())
    } else {
        match (spec_timestamped_seq(vs.drop_last()), spec_timestamped(vs.last())) {
            (Some(ts), Some(t)) => Some(ts.push(t)),
            _ => None,
        }
    }
}

/// The shapes of a sequence of timestamped descriptions.
pub open spec fn tinfos_view(vs: Seq<TimestampedVolumeInfo>) -> Seq<TimestampedVolumeInfoV> {
    Seq::new(vs.len(), |i: int| vs[i]@)
}

/// Once one stamp is malformed, the sequence has no timestamped reading.
proof fn lemma_timestamped_seq_stops(vs: Seq<VolumeInfoV>, i: int)
    requires
        0 <= i < vs.len(),
        spec_timestamped(vs[i]) is None,
    ensures
        spec_timestamped_seq(vs) is None,
    decreases vs.len(),
{
    if i < vs.len() - 1 {
        lemma_timestamped_seq_stops(vs.drop_last(), i);
    }
}

/// Reads every description in the timestamp-enabled mode; one malformed
/// stamp is a decode error for the whole list.
#[verifier::loop_isolation(false)]
pub fn timestamped_volumes(volumes: Vec<VolumeInfo>) -> (r: Result<
    Vec<TimestampedVolumeInfo>,
    Error,
>)
    ensures
        match spec_timestamped_seq(infos_view(volumes@)) {
            Some(ts) => r matches Ok(v) && tinfos_view(v@) == ts,
            None => r == Err::<Vec<TimestampedVolumeInfo>, Error>(Error::Decode),
        },
{
    let ghost vsv = infos_view(volumes@);
    let mut rest = volumes;
    let mut out: Vec<TimestampedVolumeInfo> = Vec::new();
    proof {
        assert(vsv.take(0) =~= Seq::<VolumeInfoV>::empty());
        assert(tinfos_view(out@) =~= Seq::<TimestampedVolumeInfoV>::empty());
    }
    while rest.len() > 0
        invariant
            rest@.len() <= vsv.len(),
            forall|i: int| 0 <= i < rest@.len() ==> rest@[i]@ == vsv[vsv.len() - rest@.len() + i],
            spec_timestamped_seq(vsv.take(vsv.len() - rest@.len())) == Some(tinfos_view(out@)),
        decreases rest@.len(),
    {
        let ghost k = vsv.len() - rest@.len();
        let v = rest.remove(0);
        proof {
            assert(v@ == vsv[k as int]);
        }
        match v.into_timestamped() {
            Ok(t) => {
                let ghost before = out@;
                let ghost tv = t@;
                out.push(t);
                proof {
                    assert(vsv.take(k + 1).drop_last() =~= vsv.take(k as int));
                    assert(vsv.take(k + 1).last() == vsv[k as int]);
                    assert(tinfos_view(out@) =~= tinfos_view(before).push(tv));
                }
            },
            Err(_) => {
                proof {
                    lemma_timestamped_seq_stops(vsv, k as int);
                }
                return Err(Error::Decode);
            },
        }
    }
    proof {
        assert(vsv.take(vsv.len() as int) =~= vsv);
    }
    Ok(out)
}

/// What listing returns in the timestamp-enabled mode: as `list_response`,
/// and a volume whose creation stamp is not a well-formed RFC 3339 stamp
/// is a decode error.
pub fn list_response_timestamped(status: u16, body: &str) -> (r: Result<
    Vec<TimestampedVolumeInfo>,
    Error,
>)
    ensures
        !is_success(status) ==> (r matches Err(Error::Api { status: s, message: m }) && s == status
            && m@ == error_message(body@)),
        is_success(status) ==> match parsed_json(body@) {
            None => r == Err::<Vec<TimestampedVolumeInfo>, Error>(Error::Decode),
            Some(j) => match spec_decode_volumes_info(j) {
                None => r == Err::<Vec<TimestampedVolumeInfo>, Error>(Error::Decode),
                Some(w) => match spec_timestamped_seq(
                    match w.volumes {
                        Some(vs) => vs,
                        None => Seq::<VolumeInfoV>::empty(),
                    },
                ) {
                    None => r == Err::<Vec<TimestampedVolumeInfo>, Error>(Error::Decode),
                    Some(ts) => r matches Ok(v) && tinfos_view(v@) == ts,
                },
            },
        },
{
    match list_response(status, body) {
        Ok(volumes) => timestamped_volumes(volumes),
        Err(e) => Err(e),
    }
}

/// A map of strings decodes back to exactly the map it encodes from.
proof fn lemma_str_map_round_trip(m: Seq<(Seq<char>, Seq<char>)>)
    ensures
        str_map_of(str_map_fields(m)) == Some(m),
    decreases m.len(),
{
    if m.len() == 0 {
        assert(str_map_fields(m) =~= Seq::<(Seq<char>, JsonV)>::empty());
    } else {
        lemma_str_map_round_trip(m.drop_last());
        assert(str_map_fields(m).drop_last() =~= str_map_fields(m.drop_last()));
        assert(str_map_fields(m).last() == (m.last().0, JsonV::Str(m.last().1)));
        assert(m.drop_last().push(m.last()) =~= m);
    }
}

/// Encoding a creation response and decoding it back yields an equal
/// response.
pub proof fn lemma_volume_create_info_round_trip(v: VolumeCreateInfoV)
    ensures
        spec_decode_volume_create_info(spec_encode_volume_create_info(v)) == Some(v),
{
    let fs = spec_encode_volume_create_info(v)->Obj_0;
    assert(fs.last() == ("Name"@, JsonV::Str(v.name)));
}

/// Looking a key up passes over a field bound to another key.
proof fn lemma_lookup_miss(fs: Seq<(Seq<char>, JsonV)>, key: Seq<char>)
    requires
        fs.len() > 0,
        fs.last().0 != key,
    ensures
        lookup(fs, key) == lookup(fs.drop_last(), key),
{
}

/// Looking a key up finds the last field bound to it.
proof fn lemma_lookup_hit(fs: Seq<(Seq<char>, JsonV)>, key: Seq<char>)
    requires
        fs.len() > 0,
        fs.last().0 == key,
    ensures
        lookup(fs, key) == Some(fs.last().1),
{
}

/// Encoding a volume description and decoding it back yields an equal
/// description, whichever fields are populated.
#[verifier::rlimit(60)]
pub proof fn lemma_volume_info_round_trip(v: VolumeInfoV)
    ensures
        spec_decode_volume_info(spec_encode_volume_info(v)) == Some(v),
{
    reveal_strlit("CreatedAt");
    reveal_strlit("Driver");
    reveal_strlit("Labels");
    reveal_strlit("Name");
    reveal_strlit("Mountpoint");
    reveal_strlit("Options");
    reveal_strlit("Scope");
    assert("CreatedAt"@.len() == 9);
    assert("Driver"@.len() == 6);
    assert("Labels"@.len() == 6);
    assert("Name"@.len() == 4);
    assert("Mountpoint"@.len() == 10);
    assert("Options"@.len() == 7);
    assert("Scope"@.len() == 5);
    assert("Driver"@[0] == 'D' && "Labels"@[0] == 'L');
    let f7 = spec_encode_volume_info(v)->Obj_0;
    let f6 = f7.drop_last();
    let f5 = f6.drop_last();
    let f4 = f5.drop_last();
    let f3 = f4.drop_last();
    let f2 = f3.drop_last();
    let f1 = f2.drop_last();
    assert(f7.last() == ("Scope"@, JsonV::Str(v.scope)));
    assert(f6.last() == ("Options"@, opt_map_json(v.options)));
    assert(f5.last() == ("Mountpoint"@, JsonV::Str(v.mountpoint)));
    assert(f4.last() == ("Name"@, JsonV::Str(v.name)));
    assert(f3.last() == ("Labels"@, opt_map_json(v.labels)));
    assert(f2.last() == ("Driver"@, JsonV::Str(v.driver)));
    assert(f1.last() == ("CreatedAt"@, JsonV::Str(v.created_at)));
    lemma_lookup_miss(f7, "CreatedAt"@);
    lemma_lookup_miss(f6, "CreatedAt"@);
    lemma_lookup_miss(f5, "CreatedAt"@);
    lemma_lookup_miss(f4, "CreatedAt"@);
    lemma_lookup_miss(f3, "CreatedAt"@);
    lemma_lookup_miss(f2, "CreatedAt"@);
    lemma_lookup_hit(f1, "CreatedAt"@);
    lemma_lookup_miss(f7, "Driver"@);
    lemma_lookup_miss(f6, "Driver"@);
    lemma_lookup_miss(f5, "Driver"@);
    lemma_lookup_miss(f4, "Driver"@);
    lemma_lookup_miss(f3, "Driver"@);
    lemma_lookup_hit(f2, "Driver"@);
    lemma_lookup_miss(f7, "Labels"@);
    lemma_lookup_miss(f6, "Labels"@);
    lemma_lookup_miss(f5, "Labels"@);
    lemma_lookup_miss(f4, "Labels"@);
    lemma_lookup_hit(f3, "Labels"@);
    lemma_lookup_miss(f7, "Name"@);
    lemma_lookup_miss(f6, "Name"@);
    lemma_lookup_miss(f5, "Name"@);
    lemma_lookup_hit(f4, "Name"@);
    lemma_lookup_miss(f7, "Mountpoint"@);
    lemma_lookup_miss(f6, "Mountpoint"@);
    lemma_lookup_hit(f5, "Mountpoint"@);
    lemma_lookup_miss(f7, "Options"@);
    lemma_lookup_hit(f6, "Options"@);
    lemma_lookup_hit(f7, "Scope"@);
    assert(lookup(f7, "CreatedAt"@) == Some(JsonV::Str(v.created_at)));
    assert(lookup(f7, "Driver"@) == Some(JsonV::Str(v.driver)));
    assert(lookup(f7, "Labels"@) == Some(opt_map_json(v.labels)));
    assert(lookup(f7, "Name"@) == Some(JsonV::Str(v.name)));
    assert(lookup(f7, "Mountpoint"@) == Some(JsonV::Str(v.mountpoint)));
    assert(lookup(f7, "Options"@) == Some(opt_map_json(v.options)));
    assert(lookup(f7, "Scope"@) == Some(JsonV::Str(v.scope)));
    if let Some(m) = v.labels {
        lemma_str_map_round_trip(m);
    }
    if let Some(m) = v.options {
        lemma_str_map_round_trip(m);
    }
}

/// A wrapper object without the volumes list decodes to an explicit
/// absent list — no error — whenever its warnings leg is well-formed, and
/// an absent list lists as the empty sequence.
pub proof fn lemma_absent_volumes_list_empty(fs: Seq<(Seq<char>, JsonV)>)
    requires
        lookup(fs, "Volumes"@) is None,
        get_opt_strings(fs, "Warnings"@) is Some,
    ensures
        spec_decode_volumes_info(JsonV::Obj(fs)) matches Some(w) && w.volumes is None,
{
}

} // verus!
