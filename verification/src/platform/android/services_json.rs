//! The services of a remote device, as the Android side reports them: a JSON
//! array with one object per service.
use crate::gatt::props::{AttributePermissions, CharacteristicProperties};
use crate::gatt::service::{GattCharacteristic, GattService};
use crate::text::same_text;
use crate::uuids::Uuid;
use vstd::prelude::*;

verus! {

/// `serde_json::Value`, opaque but for what [`json_tree`] says it holds.
#[verifier::external_type_specification]
#[verifier::external_body]
pub struct ExJsonValue(serde_json::Value);

/// What a JSON value says.
pub enum JsonTree {
    Null,
    Bool(bool),
    /// A number, where it is an integer that fits.
    Number(Option<i64>),
    Text(Seq<char>),
    Array(Seq<JsonTree>),
    Object(Seq<(Seq<char>, JsonTree)>),
}

/// What a `serde_json::Value` holds.
pub uninterp spec fn json_tree(value: serde_json::Value) -> JsonTree;

/// What `serde_json::from_str` reads as a JSON array: its elements, or nothing
/// where the text is no JSON array.
pub uninterp spec fn parsed_array(text: Seq<char>) -> Option<Seq<JsonTree>>;

/// One level of a JSON value.
enum JsonNode {
    Null,
    Bool(bool),
    Number(Option<i64>),
    Text(String),
    Array(Vec<serde_json::Value>),
    Object(Vec<(String, serde_json::Value)>),
}

/// What the values of an array hold.
spec fn trees(values: Seq<serde_json::Value>) -> Seq<JsonTree> {
    values.map_values(|v: serde_json::Value| json_tree(v))
}

/// What the members of an object hold.
spec fn member_trees(members: Seq<(String, serde_json::Value)>) -> Seq<(Seq<char>, JsonTree)> {
    members.map_values(|m: (String, serde_json::Value)| (m.0@, json_tree(m.1)))
}

/// `serde_json::from_str` into an array of values; `None` for its error.
#[verifier::external_body]
fn read_array(text: &str) -> (elements: Option<Vec<serde_json::Value>>)
    ensures
        match elements {
            Some(values) => parsed_array(text@) == Some(trees(values@)),
            None => parsed_array(text@) is None,
        },
{
    serde_json::from_str(text).ok()
}

/// The variants of `serde_json::Value`, told apart; a number as
/// `serde_json::Number::as_i64` gives it.
#[verifier::external_body]
fn open_value(value: serde_json::Value) -> (node: JsonNode)
    ensures
        json_tree(value) == (match node {
            JsonNode::Null => JsonTree::Null,
            JsonNode::Bool(b) => JsonTree::Bool(b),
            JsonNode::Number(n) => JsonTree::Number(n),
            JsonNode::Text(s) => JsonTree::Text(s@),
            JsonNode::Array(values) => JsonTree::Array(trees(values@)),
            JsonNode::Object(members) => JsonTree::Object(member_trees(members@)),
        }),
{
    match value {
        serde_json::Value::Null => JsonNode::Null,
        serde_json::Value::Bool(b) => JsonNode::Bool(b),
        serde_json::Value::Number(n) => JsonNode::Number(n.as_i64()),
        serde_json::Value::String(s) => JsonNode::Text(s),
        serde_json::Value::Array(values) => JsonNode::Array(values),
        serde_json::Value::Object(members) => JsonNode::Object(members.into_iter().collect()),
    }
}

/// A JSON value, taken apart.
pub enum Json {
    Null,
    Bool(bool),
    /// A number, where it is an integer that fits.
    Number(Option<i64>),
    Text(String),
    Array(Vec<Json>),
    Object(Vec<(String, Json)>),
}

impl View for Json {
    type V = JsonTree;

    open spec fn view(&self) -> JsonTree {
        json_view(*self)
    }
}

/// What `json` says.
pub open spec fn json_view(json: Json) -> JsonTree
    decreases json,
{
    match json {
        Json::Null => JsonTree::Null,
        Json::Bool(b) => JsonTree::Bool(b),
        Json::Number(n) => JsonTree::Number(n),
        Json::Text(s) => JsonTree::Text(s@),
        Json::Array(values) => JsonTree::Array(json_views(values@)),
        Json::Object(members) => JsonTree::Object(json_members(members@)),
    }
}

/// What the elements of an array say.
pub open spec fn json_views(values: Seq<Json>) -> Seq<JsonTree>
    decreases values,
{
    if values.len() == 0 {
        Seq::empty()
    } else {
        json_views(values.drop_last()).push(json_view(values.last()))
    }
}

/// What the members of an object say.
pub open spec fn json_members(members: Seq<(String, Json)>) -> Seq<(Seq<char>, JsonTree)>
    decreases members,
{
    if members.len() == 0 {
        Seq::empty()
    } else {
        json_members(members.drop_last()).push((members.last().0@, json_view(members.last().1)))
    }
}

/// Take a `serde_json::Value` apart.
fn json_of(value: serde_json::Value) -> (json: Json)
    ensures
        json@ == json_tree(value),
    decreases json_tree(value),
{
    let ghost whole = json_tree(value);
    match open_value(value) {
        JsonNode::Null => Json::Null,
        JsonNode::Bool(b) => Json::Bool(b),
        JsonNode::Number(n) => Json::Number(n),
        JsonNode::Text(s) => Json::Text(s),
        JsonNode::Array(values) => {
            let ghost all = values@;
            let mut values = values;
            let mut parts: Vec<Json> = Vec::new();
            proof {
                assert(trees(all).take(0) =~= Seq::empty());
            }
            while values.len() > 0
                invariant
                    whole == JsonTree::Array(trees(all)),
                    whole == json_tree(value),
                    parts@.len() + values@.len() == all.len(),
                    values@ == all.skip(parts@.len() as int),
                    json_views(parts@) == trees(all).take(parts@.len() as int),
                decreases values.len(),
            {
                let ghost n = parts@.len() as int;
                let element = values.remove(0);
                assert(trees(all)[n] == json_tree(element));
                assert(decreases_to!(whole => whole->Array_0));
                assert(decreases_to!(whole->Array_0 => whole->Array_0[n]));
                let ghost before = parts@;
                let part = json_of(element);
                parts.push(part);
                proof {
                    assert(parts@.drop_last() =~= before);
                    assert(trees(all).take(n + 1) =~= trees(all).take(n).push(trees(all)[n]));
                    assert(values@ =~= all.skip(n + 1));
                }
            }
            assert(trees(all).take(all.len() as int) =~= trees(all));
            Json::Array(parts)
        },
        JsonNode::Object(members) => {
            let ghost all = members@;
            let mut members = members;
            let mut parts: Vec<(String, Json)> = Vec::new();
            proof {
                assert(member_trees(all).take(0) =~= Seq::empty());
            }
            while members.len() > 0
                invariant
                    whole == JsonTree::Object(member_trees(all)),
                    whole == json_tree(value),
                    parts@.len() + members@.len() == all.len(),
                    members@ == all.skip(parts@.len() as int),
                    json_members(parts@) == member_trees(all).take(parts@.len() as int),
                decreases members.len(),
            {
                let ghost n = parts@.len() as int;
                let (key, element) = members.remove(0);
                assert(member_trees(all)[n] == (key@, json_tree(element)));
                assert(decreases_to!(whole => whole->Object_0));
                assert(decreases_to!(whole->Object_0 => whole->Object_0[n]));
                assert(decreases_to!(whole->Object_0[n] => whole->Object_0[n].1));
                let ghost before = parts@;
                let part = json_of(element);
                parts.push((key, part));
                proof {
                    assert(parts@.drop_last() =~= before);
                    assert(member_trees(all).take(n + 1) =~= member_trees(all).take(n).push(
                        member_trees(all)[n],
                    ));
                    assert(members@ =~= all.skip(n + 1));
                }
            }
            assert(member_trees(all).take(all.len() as int) =~= member_trees(all));
            Json::Object(parts)
        },
    }
}

/// A member of an object, by its name.
pub open spec fn find_member(members: Seq<(Seq<char>, JsonTree)>, name: Seq<char>) -> Option<
    JsonTree,
>
    decreases members.len(),
{
    if members.len() == 0 {
        None
    } else {
        match find_member(members.drop_last(), name) {
            Some(tree) => Some(tree),
            None => if members.last().0 == name {
                Some(members.last().1)
            } else {
                None
            },
        }
    }
}

impl JsonTree {
    /// The member `name` of an object.
    pub open spec fn member(self, name: Seq<char>) -> Option<JsonTree> {
        match self {
            JsonTree::Object(members) => find_member(members, name),
            _ => None,
        }
    }

    /// The UUID that the member `uuid` gives.
    pub open spec fn uuid(self) -> Option<u128> {
        match self.member("uuid"@) {
            Some(JsonTree::Text(text)) => crate::uuids::parsed_uuid(text),
            _ => None,
        }
    }

    /// The number as property bits: zero where it is none, or does not fit.
    pub open spec fn property_bits(self) -> u16 {
        match self {
            JsonTree::Number(Some(n)) if 0 <= n <= 0xffff => n as u16,
            _ => 0,
        }
    }
}

/// A characteristic that a report describes.
pub struct CharacteristicReport {
    pub uuid: u128,
    pub bits: u16,
}

/// A service that a report describes.
pub struct ServiceReport {
    pub uuid: u128,
    pub characteristics: Seq<CharacteristicReport>,
}

/// The characteristic that `tree` describes: it has a UUID and properties.
pub open spec fn reported_characteristic(tree: JsonTree) -> Option<CharacteristicReport> {
    match (tree.uuid(), tree.member("properties"@)) {
        (Some(uuid), Some(properties)) => Some(
            CharacteristicReport { uuid, bits: properties.property_bits() },
        ),
        _ => None,
    }
}

/// The characteristics that `trees` describe; what describes none is skipped.
pub open spec fn reported_characteristics(trees: Seq<JsonTree>) -> Seq<CharacteristicReport>
    decreases trees.len(),
{
    if trees.len() == 0 {
        Seq::empty()
    } else {
        let rest = reported_characteristics(trees.drop_last());
        match reported_characteristic(trees.last()) {
            Some(report) => rest.push(report),
            None => rest,
        }
    }
}

/// The service that `tree` describes: it has a UUID and an array of
/// characteristics.
pub open spec fn reported_service(tree: JsonTree) -> Option<ServiceReport> {
    match (tree.uuid(), tree.member("characteristics"@)) {
        (Some(uuid), Some(JsonTree::Array(trees))) => Some(
            ServiceReport { uuid, characteristics: reported_characteristics(trees) },
        ),
        _ => None,
    }
}

/// The services that `trees` describe; what describes none is skipped.
pub open spec fn reported_services(trees: Seq<JsonTree>) -> Seq<ServiceReport>
    decreases trees.len(),
{
    if trees.len() == 0 {
        Seq::empty()
    } else {
        let rest = reported_services(trees.drop_last());
        match reported_service(trees.last()) {
            Some(report) => rest.push(report),
            None => rest,
        }
    }
}

/// `ch` is the characteristic of a remote device that `report` describes.
pub open spec fn is_reported_characteristic(
    ch: GattCharacteristic,
    report: CharacteristicReport,
) -> bool {
    &&& ch.uuid@ == report.uuid
    &&& ch.properties@ == report.bits & CharacteristicProperties::ALL
    &&& ch.permissions@ == 0
    &&& ch.value@.len() == 0
    &&& ch.descriptors@.len() == 0
}

/// `service` is the service of a remote device that `report` describes.
pub open spec fn is_reported_service(service: GattService, report: ServiceReport) -> bool {
    &&& service.uuid@ == report.uuid
    &&& service.primary
    &&& service.characteristics@.len() == report.characteristics.len()
    &&& forall|i: int|
        0 <= i < service.characteristics@.len() ==> is_reported_characteristic(
            #[trigger] service.characteristics@[i],
            report.characteristics[i],
        )
}

/// `services` are what `reports` describe, in order.
pub open spec fn are_reported_services(
    services: Seq<GattService>,
    reports: Seq<ServiceReport>,
) -> bool {
    &&& services.len() == reports.len()
    &&& forall|i: int|
        0 <= i < services.len() ==> is_reported_service(#[trigger] services[i], reports[i])
}

impl Json {
    /// The member `name` of an object.
    fn member(&self, name: &str) -> (found: Option<&Json>)
        ensures
            match found {
                Some(json) => self@.member(name@) == Some(json@),
                None => self@.member(name@) is None,
            },
    {
        match self {
            Json::Object(members) => {
                let mut found: Option<usize> = None;
                let mut i: usize = 0;
                proof {
                    assert(members@.take(0) =~= Seq::empty());
                }
                while i < members.len()
                    invariant
                        i <= members@.len(),
                        match found {
                            Some(at) => at < i && find_member(
                                json_members(members@.take(i as int)),
                                name@,
                            ) == Some(json_view(members@[at as int].1)),
                            None => find_member(json_members(members@.take(i as int)), name@)
                                is None,
                        },
                    decreases members@.len() - i,
                {
                    proof {
                        assert(members@.take(i + 1).drop_last() =~= members@.take(i as int));
                        let longer = json_members(members@.take(i + 1));
                        assert(longer.drop_last() =~= json_members(members@.take(i as int)));
                    }
                    if found.is_none() && same_text(members[i].0.as_str(), name) {
                        found = Some(i);
                    }
                    i += 1;
                }
                assert(members@.take(i as int) =~= members@);
                match found {
                    Some(at) => Some(&members[at].1),
                    None => None,
                }
            },
            _ => None,
        }
    }

    /// The UUID that the member `uuid` gives.
    fn uuid(&self) -> (uuid: Option<Uuid>)
        ensures
            match uuid {
                Some(u) => self@.uuid() == Some(u@),
                None => self@.uuid() is None,
            },
    {
        match self.member("uuid") {
            Some(Json::Text(text)) => Uuid::parse_str(text.as_str()),
            _ => None,
        }
    }

    /// The number as property bits: zero where it is none, or does not fit.
    fn property_bits(&self) -> (bits: u16)
        ensures
            bits == self@.property_bits(),
    {
        match self {
            Json::Number(Some(n)) => if 0 <= *n && *n <= 0xffff {
                *n as u16
            } else {
                0
            },
            _ => 0,
        }
    }
}

/// The characteristic that `json` describes.
fn characteristic_of(json: &Json) -> (found: Option<GattCharacteristic>)
    ensures
        match found {
            Some(ch) => reported_characteristic(json@) matches Some(report)
                && is_reported_characteristic(ch, report),
            None => reported_characteristic(json@) is None,
        },
{
    match (json.uuid(), json.member("properties")) {
        (Some(uuid), Some(properties)) => Some(
            GattCharacteristic {
                uuid,
                properties: CharacteristicProperties::from_bits_truncate(
                    properties.property_bits(),
                ),
                permissions: AttributePermissions::empty(),
                value: Vec::new(),
                descriptors: Vec::new(),
            },
        ),
        _ => None,
    }
}

/// The characteristics that `values` describe.
fn characteristics_of(values: &Vec<Json>) -> (found: Vec<GattCharacteristic>)
    ensures
        ({
            let reports = reported_characteristics(json_views(values@));
            &&& found@.len() == reports.len()
            &&& forall|i: int|
                0 <= i < found@.len() ==> is_reported_characteristic(
                    #[trigger] found@[i],
                    reports[i],
                )
        }),
{
    let mut found: Vec<GattCharacteristic> = Vec::new();
    let mut i: usize = 0;
    proof {
        assert(values@.take(0) =~= Seq::empty());
    }
    while i < values.len()
        invariant
            i <= values@.len(),
            found@.len() == reported_characteristics(json_views(values@.take(i as int))).len(),
            forall|j: int|
                0 <= j < found@.len() ==> is_reported_characteristic(
                    #[trigger] found@[j],
                    reported_characteristics(json_views(values@.take(i as int)))[j],
                ),
        decreases values@.len() - i,
    {
        proof {
            assert(values@.take(i + 1).drop_last() =~= values@.take(i as int));
            let longer = json_views(values@.take(i + 1));
            assert(longer.drop_last() =~= json_views(values@.take(i as int)));
        }
        match characteristic_of(&values[i]) {
            Some(ch) => {
                found.push(ch);
            },
            None => {},
        }
        i += 1;
    }
    assert(values@.take(i as int) =~= values@);
    found
}

/// The service that `json` describes.
fn service_of(json: &Json) -> (found: Option<GattService>)
    ensures
        match found {
            Some(service) => reported_service(json@) matches Some(report) && is_reported_service(
                service,
                report,
            ),
            None => reported_service(json@) is None,
        },
{
    match (json.uuid(), json.member("characteristics")) {
        (Some(uuid), Some(Json::Array(values))) => Some(
            GattService { uuid, primary: true, characteristics: characteristics_of(values) },
        ),
        _ => None,
    }
}

/// The services that the elements of a report describe. An element without a
/// UUID or an array of characteristics is skipped, and so is a characteristic
/// without a UUID or properties; properties that are no 16-bit number are none.
pub fn services_of(values: &Vec<Json>) -> (services: Vec<GattService>)
    ensures
        are_reported_services(services@, reported_services(json_views(values@))),
{
    let mut found: Vec<GattService> = Vec::new();
    let mut i: usize = 0;
    proof {
        assert(values@.take(0) =~= Seq::empty());
    }
    while i < values.len()
        invariant
            i <= values@.len(),
            are_reported_services(
                found@,
                reported_services(json_views(values@.take(i as int))),
            ),
        decreases values@.len() - i,
    {
        proof {
            assert(values@.take(i + 1).drop_last() =~= values@.take(i as int));
            let longer = json_views(values@.take(i + 1));
            assert(longer.drop_last() =~= json_views(values@.take(i as int)));
        }
        match service_of(&values[i]) {
            Some(service) => {
                found.push(service);
            },
            None => {},
        }
        i += 1;
    }
    assert(values@.take(i as int) =~= values@);
    found
}

/// The services of a report; none where the text is no JSON array.
pub fn parse_services_json(text: &str) -> (services: Vec<GattService>)
    ensures
        match parsed_array(text@) {
            Some(trees) => are_reported_services(services@, reported_services(trees)),
            None => services@.len() == 0,
        },
{
    match read_array(text) {
        None => Vec::new(),
        Some(values) => {
            let ghost all = values@;
            let mut values = values;
            let mut parts: Vec<Json> = Vec::new();
            proof {
                assert(trees(all).take(0) =~= Seq::empty());
            }
            while values.len() > 0
                invariant
                    parts@.len() + values@.len() == all.len(),
                    values@ == all.skip(parts@.len() as int),
                    json_views(parts@) == trees(all).take(parts@.len() as int),
                decreases values.len(),
            {
                let ghost n = parts@.len() as int;
                let element = values.remove(0);
                assert(trees(all)[n] == json_tree(element));
                let ghost before = parts@;
                let part = json_of(element);
                parts.push(part);
                proof {
                    assert(parts@.drop_last() =~= before);
                    assert(trees(all).take(n + 1) =~= trees(all).take(n).push(trees(all)[n]));
                    assert(values@ =~= all.skip(n + 1));
                }
            }
            assert(trees(all).take(all.len() as int) =~= trees(all));
            services_of(&parts)
        },
    }
}

/// Taking JSON apart loses nothing: an array has what each of its elements
/// says, in order, and an object what each of its members says, under its name.
pub proof fn law_json_is_kept_whole(
    values: Vec<Json>,
    members: Vec<(String, Json)>,
    text: String,
    n: Option<i64>,
)
    ensures
        Json::Array(values)@ matches JsonTree::Array(trees) && trees.len() == values@.len()
            && forall|i: int| 0 <= i < trees.len() ==> #[trigger] trees[i] == values@[i]@,
        Json::Object(members)@ matches JsonTree::Object(named) && named.len() == members@.len()
            && forall|i: int|
            0 <= i < named.len() ==> #[trigger] named[i] == (members@[i].0@, members@[i].1@),
        Json::Text(text)@ == JsonTree::Text(text@),
        Json::Number(n)@ == JsonTree::Number(n),
{
    lemma_json_views(values@);
    lemma_json_members(members@);
}

proof fn lemma_json_views(values: Seq<Json>)
    ensures
        json_views(values).len() == values.len(),
        forall|i: int|
            0 <= i < values.len() ==> #[trigger] json_views(values)[i] == json_view(values[i]),
    decreases values.len(),
{
    if values.len() > 0 {
        lemma_json_views(values.drop_last());
    }
}

proof fn lemma_json_members(members: Seq<(String, Json)>)
    ensures
        json_members(members).len() == members.len(),
        forall|i: int|
            0 <= i < members.len() ==> #[trigger] json_members(members)[i] == (
                members[i].0@,
                json_view(members[i].1),
            ),
    decreases members.len(),
{
    if members.len() > 0 {
        lemma_json_members(members.drop_last());
    }
}

/// An object has one value under a name: that of its first member so named, and
/// none exactly where no member is so named.
pub proof fn law_member_is_the_first_so_named(
    members: Seq<(Seq<char>, JsonTree)>,
    name: Seq<char>,
)
    ensures
        match JsonTree::Object(members).member(name) {
            Some(value) => exists|i: int|
                {
                    &&& 0 <= i < members.len()
                    &&& #[trigger] members[i] == (name, value)
                    &&& forall|j: int| 0 <= j < i ==> (#[trigger] members[j]).0 != name
                },
            None => forall|i: int| 0 <= i < members.len() ==> (#[trigger] members[i]).0 != name,
        },
    decreases members.len(),
{
    if members.len() > 0 {
        let rest = members.drop_last();
        law_member_is_the_first_so_named(rest, name);
        match JsonTree::Object(rest).member(name) {
            Some(value) => {
                let i = choose|i: int|
                    {
                        &&& 0 <= i < rest.len()
                        &&& #[trigger] rest[i] == (name, value)
                        &&& forall|j: int| 0 <= j < i ==> (#[trigger] rest[j]).0 != name
                    };
                assert(members[i] == (name, value));
                assert forall|j: int| 0 <= j < i implies (#[trigger] members[j]).0 != name by {
                    assert(rest[j].0 != name);
                }
            },
            None => {
                let last = members.len() - 1;
                assert forall|j: int| 0 <= j < last implies (#[trigger] members[j]).0 != name by {
                    assert(rest[j].0 != name);
                }
                if members.last().0 == name {
                    assert(members[last] == (name, members.last().1));
                }
            },
        }
    }
}

proof fn lemma_member_at(
    members: Seq<(Seq<char>, JsonTree)>,
    name: Seq<char>,
    i: int,
)
    requires
        0 <= i < members.len(),
        members[i].0 == name,
        forall|j: int| 0 <= j < i ==> (#[trigger] members[j]).0 != name,
    ensures
        JsonTree::Object(members).member(name) == Some(members[i].1),
{
    law_member_is_the_first_so_named(members, name);
    let value = JsonTree::Object(members).member(name);
    if value is None {
        assert(members[i].0 != name);
    } else {
        let k = choose|k: int|
            {
                &&& 0 <= k < members.len()
                &&& #[trigger] members[k] == (name, value.unwrap())
                &&& forall|j: int| 0 <= j < k ==> (#[trigger] members[j]).0 != name
            };
        if k < i {
            assert(members[k].0 != name);
        } else if i < k {
            assert(members[i].0 != name);
        }
    }
}

/// The services of two reports, one behind the other, are those of the first
/// followed by those of the second; likewise for characteristics.
pub proof fn law_reports_add_up(first: Seq<JsonTree>, second: Seq<JsonTree>)
    ensures
        reported_services(first + second) == reported_services(first) + reported_services(second),
        reported_characteristics(first + second) == reported_characteristics(first)
            + reported_characteristics(second),
        reported_services(Seq::empty()).len() == 0,
        reported_characteristics(Seq::empty()).len() == 0,
    decreases second.len(),
{
    if second.len() == 0 {
        assert(first + second =~= first);
        assert(reported_services(first) + reported_services(second) =~= reported_services(first));
        assert(reported_characteristics(first) + reported_characteristics(second)
            =~= reported_characteristics(first));
    } else {
        law_reports_add_up(first, second.drop_last());
        assert((first + second).drop_last() =~= first + second.drop_last());
        assert(reported_services(first + second) =~= reported_services(first)
            + reported_services(second));
        assert(reported_characteristics(first + second) =~= reported_characteristics(first)
            + reported_characteristics(second));
    }
}

/// An element of a report with a readable UUID and an array of characteristics
/// gives one service, in its place, with that UUID and the characteristics of
/// that array, whatever stands before and behind it.
pub proof fn law_each_readable_element_is_a_service(
    before: Seq<JsonTree>,
    members: Seq<(Seq<char>, JsonTree)>,
    after: Seq<JsonTree>,
    u: int,
    text: Seq<char>,
    uuid: u128,
    c: int,
    characteristics: Seq<JsonTree>,
)
    requires
        0 <= u < members.len(),
        members[u] == ("uuid"@, JsonTree::Text(text)),
        forall|j: int| 0 <= j < u ==> (#[trigger] members[j]).0 != "uuid"@,
        crate::uuids::parsed_uuid(text) == Some(uuid),
        0 <= c < members.len(),
        members[c] == ("characteristics"@, JsonTree::Array(characteristics)),
        forall|j: int| 0 <= j < c ==> (#[trigger] members[j]).0 != "characteristics"@,
    ensures
        reported_services(before + seq![JsonTree::Object(members)] + after) == reported_services(
            before,
        ) + seq![
            ServiceReport { uuid, characteristics: reported_characteristics(characteristics) },
        ] + reported_services(after),
{
    let one = seq![JsonTree::Object(members)];
    lemma_member_at(members, "uuid"@, u);
    lemma_member_at(members, "characteristics"@, c);
    law_reports_add_up(before + one, after);
    law_reports_add_up(before, one);
    assert(one.drop_last() =~= Seq::empty());
    assert(reported_services(one) =~= seq![
        ServiceReport { uuid, characteristics: reported_characteristics(characteristics) },
    ]);
}

/// A characteristic of a report with a readable UUID and properties gives one
/// characteristic, in its place, with that UUID and the properties that the
/// number has as bits, none where it is no 16-bit number.
pub proof fn law_each_readable_entry_is_a_characteristic(
    before: Seq<JsonTree>,
    members: Seq<(Seq<char>, JsonTree)>,
    after: Seq<JsonTree>,
    u: int,
    text: Seq<char>,
    uuid: u128,
    p: int,
)
    requires
        0 <= u < members.len(),
        members[u] == ("uuid"@, JsonTree::Text(text)),
        forall|j: int| 0 <= j < u ==> (#[trigger] members[j]).0 != "uuid"@,
        crate::uuids::parsed_uuid(text) == Some(uuid),
        0 <= p < members.len(),
        members[p].0 == "properties"@,
        forall|j: int| 0 <= j < p ==> (#[trigger] members[j]).0 != "properties"@,
    ensures
        ({
            let found = reported_characteristics(
                before + seq![JsonTree::Object(members)] + after,
            );
            let at = reported_characteristics(before).len() as int;
            &&& found == reported_characteristics(before) + seq![found[at]]
                + reported_characteristics(after)
            &&& found[at].uuid == uuid
            &&& members[p].1 matches JsonTree::Number(Some(n)) ==> {
                &&& 0 <= n <= 0xffff ==> found[at].bits == n
                &&& !(0 <= n <= 0xffff) ==> found[at].bits == 0
            }
            &&& !(members[p].1 matches JsonTree::Number(Some(_))) ==> found[at].bits == 0
        }),
{
    let one = seq![JsonTree::Object(members)];
    lemma_member_at(members, "uuid"@, u);
    lemma_member_at(members, "properties"@, p);
    law_reports_add_up(before + one, after);
    law_reports_add_up(before, one);
    assert(one.drop_last() =~= Seq::empty());
    let report = CharacteristicReport { uuid, bits: members[p].1.property_bits() };
    assert(reported_characteristics(one) =~= seq![report]);
    let found = reported_characteristics(before + one + after);
    let at = reported_characteristics(before).len() as int;
    assert(found[at] == report);
}

/// What is no object, or has no readable UUID or no array of characteristics,
/// gives no service, and does not affect the others; what has no readable UUID
/// or no properties gives no characteristic.
pub proof fn law_unreadable_elements_are_skipped(
    before: Seq<JsonTree>,
    tree: JsonTree,
    after: Seq<JsonTree>,
)
    ensures
        ({
            let no_uuid = forall|members: Seq<(Seq<char>, JsonTree)>, i: int|
                #![trigger members[i]]
                tree == JsonTree::Object(members) && 0 <= i < members.len() && members[i].0
                    == "uuid"@ ==> !(members[i].1 matches JsonTree::Text(text)
                    && crate::uuids::parsed_uuid(text) is Some);
            let no_array = forall|members: Seq<(Seq<char>, JsonTree)>, i: int|
                #![trigger members[i]]
                tree == JsonTree::Object(members) && 0 <= i < members.len() && members[i].0
                    == "characteristics"@ ==> !(members[i].1 is Array);
            let no_properties = forall|members: Seq<(Seq<char>, JsonTree)>, i: int|
                #![trigger members[i]]
                tree == JsonTree::Object(members) && 0 <= i < members.len() ==> members[i].0
                    != "properties"@;
            &&& !(tree is Object) || no_uuid || no_array ==> reported_services(
                before + seq![tree] + after,
            ) == reported_services(before) + reported_services(after)
            &&& !(tree is Object) || no_uuid || no_properties ==> reported_characteristics(
                before + seq![tree] + after,
            ) == reported_characteristics(before) + reported_characteristics(after)
        }),
{
    let one = seq![tree];
    law_reports_add_up(before + one, after);
    law_reports_add_up(before, one);
    assert(one.drop_last() =~= Seq::empty());
    if let JsonTree::Object(members) = tree {
        law_member_is_the_first_so_named(members, "uuid"@);
        law_member_is_the_first_so_named(members, "characteristics"@);
        law_member_is_the_first_so_named(members, "properties"@);
    }
    assert(reported_services(before) + Seq::<ServiceReport>::empty() =~= reported_services(before));
    assert(reported_characteristics(before) + Seq::<CharacteristicReport>::empty()
        =~= reported_characteristics(before));
}

/// The services that come of a report are as many as it describes, each with
/// the UUID and the characteristics that it describes, in order; each of those
/// has the described UUID and exactly the known ones of the described property
/// bits, and neither permissions, a value nor descriptors.
pub proof fn law_services_are_what_is_described(
    services: Seq<GattService>,
    reports: Seq<ServiceReport>,
    i: int,
    j: int,
)
    requires
        are_reported_services(services, reports),
    ensures
        services.len() == reports.len(),
        0 <= i < services.len() ==> {
            &&& services[i].uuid@ == reports[i].uuid
            &&& services[i].primary
            &&& services[i].characteristics@.len() == reports[i].characteristics.len()
        },
        0 <= i < services.len() && 0 <= j < reports[i].characteristics.len() ==> {
            let ch = services[i].characteristics@[j];
            let report = reports[i].characteristics[j];
            &&& ch.uuid@ == report.uuid
            &&& ch.properties@ <= 0xff
            &&& ch.properties@ == report.bits % 256
            &&& ch.permissions@ == 0
            &&& ch.value@ == Seq::<u8>::empty()
            &&& ch.descriptors@.len() == 0
        },
{
    if 0 <= i < services.len() {
        assert(is_reported_service(services[i], reports[i]));
        if 0 <= j < reports[i].characteristics.len() {
            let ch = services[i].characteristics@[j];
            let bits = reports[i].characteristics[j].bits;
            assert(is_reported_characteristic(ch, reports[i].characteristics[j]));
            assert(bits & 0x00ffu16 == bits % 256) by (bit_vector);
            assert(ch.value@ =~= Seq::<u8>::empty());
        }
    }
}

/// The services that come of two reports, one behind the other, are those that
/// come of the first followed by those that come of the second.
pub proof fn law_services_of_two_reports(
    first: Seq<JsonTree>,
    second: Seq<JsonTree>,
    of_first: Seq<GattService>,
    of_second: Seq<GattService>,
    of_both: Seq<GattService>,
)
    requires
        are_reported_services(of_first, reported_services(first)),
        are_reported_services(of_second, reported_services(second)),
        are_reported_services(of_both, reported_services(first + second)),
    ensures
        crate::gatt::service::service_views(of_both) == crate::gatt::service::service_views(
            of_first + of_second,
        ),
{
    law_reports_add_up(first, second);
    let whole = reported_services(first + second);
    let parts = of_first + of_second;
    assert forall|i: int| 0 <= i < parts.len() implies (#[trigger] of_both[i])@ == parts[i]@ by {
        assert(is_reported_service(of_both[i], whole[i]));
        if i < of_first.len() {
            assert(is_reported_service(of_first[i], reported_services(first)[i]));
        } else {
            let k = i - of_first.len();
            assert(is_reported_service(of_second[k], reported_services(second)[k]));
        }
        assert(is_reported_service(parts[i], whole[i]));
        let a = of_both[i]@.characteristics;
        let b = parts[i]@.characteristics;
        assert forall|j: int| 0 <= j < a.len() implies #[trigger] a[j] == b[j] by {
            let x = of_both[i].characteristics@[j];
            let y = parts[i].characteristics@[j];
            assert(is_reported_characteristic(x, whole[i].characteristics[j]));
            assert(is_reported_characteristic(y, whole[i].characteristics[j]));
            assert(x@.value =~= y@.value);
            assert(x@.descriptors =~= y@.descriptors);
        }
        assert(a =~= b);
    }
    assert(crate::gatt::service::service_views(of_both) =~= crate::gatt::service::service_views(
        parts,
    ));
}

} // verus!
