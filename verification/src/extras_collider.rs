//! Shapes declared in a node's metadata payload.
//!
//! The payload is a JSON object with a member `collider_data`, a string that
//! holds a second JSON document:
//!
//! ```text
//! {"colliders":[{"collider_type":"cuboid","value":[1,1,1],
//!   "translation":{"x":0,"y":0,"z":0},
//!   "rotation":{"x":0,"y":0,"z":0,"w":1},
//!   "scale":{"x":1,"y":1,"z":1}}]}
//! ```
//!
//! `translation`, `rotation` and `scale` may be left out or `null`. Members
//! that are not named here are ignored.

use crate::collider::{Collider, ColliderView};
use crate::json::{
    duplicate, elements, is_null, json_member, json_of, json_of_all, json_parse, member, number,
    parse, text, Json,
};
use crate::lists::reversed;
use crate::math::{Quat, Transform, Vec3};
use vstd::prelude::*;
use vstd::string::*;

verus! {

/// Why a metadata payload gave no shapes.
#[derive(Debug, PartialEq)]
pub enum ColliderExtrasParsingError {
    /// The payload, or the document in its `collider_data`, is no JSON or
    /// does not have the layout above. Holds a message.
    InvalidColliderDataFormat(String),
    /// A declaration names a kind of shape that is not known. Holds the name.
    UnknownColliderType(String),
    /// The `value` of a declaration does not fit its kind. Holds that `value`,
    /// whole.
    InvalidColliderValue(serde_json::Value),
}

/// What a [`ColliderExtrasParsingError`] holds.
pub ghost enum ExtrasErrorView {
    InvalidColliderDataFormat(Seq<char>),
    UnknownColliderType(Seq<char>),
    InvalidColliderValue(Json),
}

impl View for ColliderExtrasParsingError {
    type V = ExtrasErrorView;

    open spec fn view(&self) -> ExtrasErrorView {
        match *self {
            ColliderExtrasParsingError::InvalidColliderDataFormat(message) => {
                ExtrasErrorView::InvalidColliderDataFormat(message@)
            },
            ColliderExtrasParsingError::UnknownColliderType(name) => {
                ExtrasErrorView::UnknownColliderType(name@)
            },
            ColliderExtrasParsingError::InvalidColliderValue(value) => {
                ExtrasErrorView::InvalidColliderValue(json_of(value))
            },
        }
    }
}

/// One declaration of the `colliders` list, as it was read.
#[derive(Debug)]
pub struct ColliderData {
    pub collider_type: String,
    pub value: serde_json::Value,
    pub translation: Option<Vec3>,
    pub rotation: Option<Quat>,
    pub scale: Option<Vec3>,
}

/// What a [`ColliderData`] holds.
pub ghost struct ColliderDataView {
    pub collider_type: Seq<char>,
    pub value: Json,
    pub translation: Option<Vec3>,
    pub rotation: Option<Quat>,
    pub scale: Option<Vec3>,
}

impl View for ColliderData {
    type V = ColliderDataView;

    open spec fn view(&self) -> ColliderDataView {
        ColliderDataView {
            collider_type: self.collider_type@,
            value: json_of(self.value),
            translation: self.translation,
            rotation: self.rotation,
            scale: self.scale,
        }
    }
}

/// The message of a document that is JSON but has another layout.
pub open spec fn layout_message() -> Seq<char> {
    "collider data does not have the expected layout"@
}

/// The number that the member `key` of `j` holds.
pub open spec fn number_member(j: Json, key: Seq<char>) -> Option<u64> {
    match json_member(j, key) {
        Some(Json::Number(bits)) => Some(bits),
        _ => None,
    }
}

/// The vector that `j` spells out: an object with numbers `x`, `y` and `z`.
pub open spec fn vec3_of(j: Json) -> Option<Vec3> {
    if number_member(j, "x"@) is Some && number_member(j, "y"@) is Some && number_member(
        j,
        "z"@,
    ) is Some {
        Some(
            Vec3 {
                x: number_member(j, "x"@).unwrap(),
                y: number_member(j, "y"@).unwrap(),
                z: number_member(j, "z"@).unwrap(),
            },
        )
    } else {
        None
    }
}

/// The rotation that `j` spells out: an object with numbers `x`, `y`, `z`
/// and `w`.
pub open spec fn quat_of(j: Json) -> Option<Quat> {
    if number_member(j, "x"@) is Some && number_member(j, "y"@) is Some && number_member(
        j,
        "z"@,
    ) is Some && number_member(j, "w"@) is Some {
        Some(
            Quat {
                x: number_member(j, "x"@).unwrap(),
                y: number_member(j, "y"@).unwrap(),
                z: number_member(j, "z"@).unwrap(),
                w: number_member(j, "w"@).unwrap(),
            },
        )
    } else {
        None
    }
}

/// Whether the member `key` of `j` is left out or `null`.
pub open spec fn member_absent(j: Json, key: Seq<char>) -> bool {
    json_member(j, key) is None || json_member(j, key) == Some(Json::Null)
}

/// The optional vector under `key`: `Some(None)` where it is left out,
/// `Some(Some(v))` where it is spelled out, `None` where the member is
/// neither.
pub open spec fn optional_vec3(j: Json, key: Seq<char>) -> Option<Option<Vec3>> {
    if member_absent(j, key) {
        Some(None)
    } else {
        match vec3_of(json_member(j, key).unwrap()) {
            Some(v) => Some(Some(v)),
            None => None,
        }
    }
}

/// The optional rotation under `key`, as [`optional_vec3`].
pub open spec fn optional_quat(j: Json, key: Seq<char>) -> Option<Option<Quat>> {
    if member_absent(j, key) {
        Some(None)
    } else {
        match quat_of(json_member(j, key).unwrap()) {
            Some(q) => Some(Some(q)),
            None => None,
        }
    }
}

/// The declaration that `j` spells out, `None` where `j` does not have the
/// layout of one.
pub open spec fn collider_data_of(j: Json) -> Option<ColliderDataView> {
    if json_member(j, "collider_type"@) is Some && json_member(j, "collider_type"@).unwrap() is Text
        && json_member(j, "value"@) is Some && optional_vec3(j, "translation"@) is Some
        && optional_quat(j, "rotation"@) is Some && optional_vec3(j, "scale"@) is Some {
        Some(
            ColliderDataView {
                collider_type: json_member(j, "collider_type"@).unwrap()->Text_0,
                value: json_member(j, "value"@).unwrap(),
                translation: optional_vec3(j, "translation"@).unwrap(),
                rotation: optional_quat(j, "rotation"@).unwrap(),
                scale: optional_vec3(j, "scale"@).unwrap(),
            },
        )
    } else {
        None
    }
}

/// Whether every one of `items` has the layout of a declaration.
pub open spec fn all_collider_data(items: Seq<Json>) -> bool {
    forall|i: int| 0 <= i < items.len() ==> (#[trigger] collider_data_of(items[i])) is Some
}

/// The declarations of the document `j`: an object whose member `colliders`
/// is an array of declarations. `None` where `j` has another layout.
pub open spec fn collider_list_of(j: Json) -> Option<Seq<ColliderDataView>> {
    match json_member(j, "colliders"@) {
        Some(Json::Array(items)) => if all_collider_data(items) {
            Some(Seq::new(items.len(), |i: int| collider_data_of(items[i]).unwrap()))
        } else {
            None
        },
        _ => None,
    }
}

/// The half extents that the `value` of a cuboid gives: an array of exactly
/// three numbers. Anything else gives none.
pub open spec fn cuboid_of(value: Json) -> Option<Vec3> {
    match value {
        Json::Array(items) => if items.len() == 3 && items[0] is Number && items[1] is Number
            && items[2] is Number {
            Some(Vec3 { x: items[0]->Number_0, y: items[1]->Number_0, z: items[2]->Number_0 })
        } else {
            None
        },
        _ => None,
    }
}

/// The placement that a declaration gives: what it leaves out is no
/// translation, no rotation, unit scale.
pub open spec fn transform_of(d: ColliderDataView) -> Transform {
    Transform {
        translation: match d.translation {
            Some(v) => v,
            None => Vec3::spec_zero(),
        },
        rotation: match d.rotation {
            Some(q) => q,
            None => Quat::spec_identity(),
        },
        scale: match d.scale {
            Some(v) => v,
            None => Vec3::spec_one(),
        },
    }
}

/// The shape and placement that one declaration gives. Only `cuboid` is a
/// known kind. A `value` that does not fit the kind comes back whole in the
/// error.
pub open spec fn collider_of(d: ColliderDataView) -> Result<
    (ColliderView, Transform),
    ExtrasErrorView,
> {
    if d.collider_type != "cuboid"@ {
        Err(ExtrasErrorView::UnknownColliderType(d.collider_type))
    } else {
        match cuboid_of(d.value) {
            None => Err(ExtrasErrorView::InvalidColliderValue(d.value)),
            Some(half_extents) => Ok((ColliderView::Cuboid { half_extents }, transform_of(d))),
        }
    }
}

/// The shapes that a list of declarations gives, in order; the error of the
/// first declaration that gives none.
pub open spec fn colliders_of(items: Seq<ColliderDataView>) -> Result<
    Seq<(ColliderView, Transform)>,
    ExtrasErrorView,
>
    decreases items.len(),
{
    if items.len() == 0 {
        Ok(Seq::empty())
    } else {
        match colliders_of(items.drop_last()) {
            Err(e) => Err(e),
            Ok(done) => match collider_of(items.last()) {
                Err(e) => Err(e),
                Ok(entry) => Ok(done.push(entry)),
            },
        }
    }
}

/// The shapes that the document in `collider_data` gives, from the outcome
/// of parsing it. All declarations must have the layout of one before any is
/// looked at more closely.
pub open spec fn document_colliders(doc: Result<Json, Seq<char>>) -> Result<
    Seq<(ColliderView, Transform)>,
    ExtrasErrorView,
> {
    match doc {
        Err(message) => Err(ExtrasErrorView::InvalidColliderDataFormat(message)),
        Ok(j) => match collider_list_of(j) {
            None => Err(ExtrasErrorView::InvalidColliderDataFormat(layout_message())),
            Some(items) => colliders_of(items),
        },
    }
}

/// The text of `collider_data`, from the outcome of parsing a payload.
/// `None` where the payload is JSON of another layout: it is then metadata
/// of another kind, and no error.
pub open spec fn payload_collider_data(doc: Result<Json, Seq<char>>) -> Option<
    Result<Seq<char>, ExtrasErrorView>,
> {
    match doc {
        Err(message) => Some(Err(ExtrasErrorView::InvalidColliderDataFormat(message))),
        Ok(j) => match json_member(j, "collider_data"@) {
            Some(Json::Text(inner)) => Some(Ok(inner)),
            _ => None,
        },
    }
}

/// What the metadata payload `extras` declares.
pub open spec fn extras_colliders(extras: Seq<char>) -> Option<
    Result<Seq<(ColliderView, Transform)>, ExtrasErrorView>,
> {
    match payload_collider_data(json_parse(extras)) {
        None => None,
        Some(Err(e)) => Some(Err(e)),
        Some(Ok(inner)) => Some(document_colliders(json_parse(inner))),
    }
}

/// What a parsed document holds: its content, or the parser's message.
pub open spec fn document_view(doc: Result<serde_json::Value, String>) -> Result<Json, Seq<char>> {
    match doc {
        Ok(v) => Ok(json_of(v)),
        Err(message) => Err(message@),
    }
}

/// What a run of shapes with their placements holds.
pub open spec fn entries_view(entries: Seq<(Collider, Transform)>) -> Seq<
    (ColliderView, Transform),
> {
    Seq::new(entries.len(), |i: int| (entries[i].0@, entries[i].1))
}

/// What the outcome of reading declarations holds.
pub open spec fn colliders_view(
    r: Result<Vec<(Collider, Transform)>, ColliderExtrasParsingError>,
) -> Result<Seq<(ColliderView, Transform)>, ExtrasErrorView> {
    match r {
        Ok(entries) => Ok(entries_view(entries@)),
        Err(e) => Err(e@),
    }
}

fn read_number_member(v: &serde_json::Value, key: &str) -> (r: Option<u64>)
    ensures
        r == number_member(json_of(*v), key@),
{
    match member(v, key) {
        None => None,
        Some(m) => number(m),
    }
}

fn read_vec3(v: &serde_json::Value) -> (r: Option<Vec3>)
    ensures
        r == vec3_of(json_of(*v)),
{
    let x = read_number_member(v, "x");
    let y = read_number_member(v, "y");
    let z = read_number_member(v, "z");
    match (x, y, z) {
        (Some(x), Some(y), Some(z)) => Some(Vec3::new(x, y, z)),
        _ => None,
    }
}

fn read_quat(v: &serde_json::Value) -> (r: Option<Quat>)
    ensures
        r == quat_of(json_of(*v)),
{
    let x = read_number_member(v, "x");
    let y = read_number_member(v, "y");
    let z = read_number_member(v, "z");
    let w = read_number_member(v, "w");
    match (x, y, z, w) {
        (Some(x), Some(y), Some(z), Some(w)) => Some(Quat::new(x, y, z, w)),
        _ => None,
    }
}

fn read_optional_vec3(v: &serde_json::Value, key: &str) -> (r: Option<Option<Vec3>>)
    ensures
        r == optional_vec3(json_of(*v), key@),
{
    match member(v, key) {
        None => Some(None),
        Some(m) => {
            if is_null(m) {
                Some(None)
            } else {
                match read_vec3(m) {
                    Some(vector) => Some(Some(vector)),
                    None => None,
                }
            }
        },
    }
}

fn read_optional_quat(v: &serde_json::Value, key: &str) -> (r: Option<Option<Quat>>)
    ensures
        r == optional_quat(json_of(*v), key@),
{
    match member(v, key) {
        None => Some(None),
        Some(m) => {
            if is_null(m) {
                Some(None)
            } else {
                match read_quat(m) {
                    Some(rotation) => Some(Some(rotation)),
                    None => None,
                }
            }
        },
    }
}

fn read_collider_data(v: &serde_json::Value) -> (r: Option<ColliderData>)
    ensures
        match r {
            Some(d) => collider_data_of(json_of(*v)) == Some(d@),
            None => collider_data_of(json_of(*v)) is None,
        },
{
    let collider_type = match member(v, "collider_type") {
        None => { return None; },
        Some(m) => match text(m) {
            None => { return None; },
            Some(s) => String::from_str(s),
        },
    };
    let value = match member(v, "value") {
        None => { return None; },
        Some(m) => duplicate(m),
    };
    let translation = match read_optional_vec3(v, "translation") {
        None => { return None; },
        Some(t) => t,
    };
    let rotation = match read_optional_quat(v, "rotation") {
        None => { return None; },
        Some(q) => q,
    };
    let scale = match read_optional_vec3(v, "scale") {
        None => { return None; },
        Some(s) => s,
    };
    Some(ColliderData { collider_type, value, translation, rotation, scale })
}

/// What a run of declarations holds.
pub open spec fn collider_data_views(items: Seq<ColliderData>) -> Seq<ColliderDataView> {
    Seq::new(items.len(), |i: int| items[i]@)
}

fn read_collider_list(v: &serde_json::Value) -> (r: Option<Vec<ColliderData>>)
    ensures
        match r {
            Some(list) => collider_list_of(json_of(*v)) == Some(collider_data_views(list@)),
            None => collider_list_of(json_of(*v)) is None,
        },
{
    let items = match member(v, "colliders") {
        None => { return None; },
        Some(m) => match elements(m) {
            None => { return None; },
            Some(items) => items,
        },
    };
    let ghost contents = json_of_all(items@);
    let mut list: Vec<ColliderData> = Vec::new();
    let mut i: usize = 0;
    while i < items.len()
        invariant
            i <= items.len(),
            contents == json_of_all(items@),
            json_member(json_of(*v), "colliders"@) == Some(Json::Array(contents)),
            list.len() == i,
            forall|k: int|
                0 <= k < i ==> collider_data_of(contents[k]) == Some((#[trigger] list@[k])@),
        decreases items.len() - i,
    {
        assert(contents[i as int] == json_of(items@[i as int]));
        match read_collider_data(&items[i]) {
            None => {
                return None;
            },
            Some(d) => {
                list.push(d);
            },
        }
        i += 1;
    }
    assert(all_collider_data(contents)) by {
        assert forall|k: int| 0 <= k < contents.len() implies (#[trigger] collider_data_of(
            contents[k],
        )) is Some by {
            assert(collider_data_of(contents[k]) == Some(list@[k]@));
        }
    }
    Some(list)
}

fn read_cuboid(value: &serde_json::Value) -> (r: Option<Vec3>)
    ensures
        r == cuboid_of(json_of(*value)),
{
    let items = match elements(value) {
        None => { return None; },
        Some(items) => items,
    };
    if items.len() != 3 {
        return None;
    }
    let x = match number(&items[0]) {
        None => { return None; },
        Some(bits) => bits,
    };
    let y = match number(&items[1]) {
        None => { return None; },
        Some(bits) => bits,
    };
    let z = match number(&items[2]) {
        None => { return None; },
        Some(bits) => bits,
    };
    Some(Vec3::new(x, y, z))
}

/// Whether a piece of text is the given one.
fn text_is(s: &String, other: &str) -> (r: bool)
    ensures
        r == (s@ == other@),
{
    let other = String::from_str(other);
    *s == other
}

/// The shape and placement that one declaration gives.
pub fn collider_from_data(d: ColliderData) -> (r: Result<
    (Collider, Transform),
    ColliderExtrasParsingError,
>)
    ensures
        match r {
            Ok(entry) => collider_of(d@) == Ok::<(ColliderView, Transform), ExtrasErrorView>(
                (entry.0@, entry.1),
            ),
            Err(e) => collider_of(d@) == Err::<(ColliderView, Transform), ExtrasErrorView>(e@),
        },
{
    if !text_is(&d.collider_type, "cuboid") {
        return Err(ColliderExtrasParsingError::UnknownColliderType(d.collider_type));
    }
    let half_extents = match read_cuboid(&d.value) {
        None => {
            return Err(ColliderExtrasParsingError::InvalidColliderValue(d.value));
        },
        Some(half_extents) => half_extents,
    };
    let transform = Transform {
        translation: match d.translation {
            Some(v) => v,
            None => Vec3::zero(),
        },
        rotation: match d.rotation {
            Some(q) => q,
            None => Quat::identity(),
        },
        scale: match d.scale {
            Some(v) => v,
            None => Vec3::one(),
        },
    };
    Ok((Collider::Cuboid { half_extents }, transform))
}

/// The shapes that a list of declarations gives: all of them in order, or
/// the error of the first that gives none.
pub fn colliders_from_list(list: Vec<ColliderData>) -> (r: Result<
    Vec<(Collider, Transform)>,
    ColliderExtrasParsingError,
>)
    ensures
        colliders_view(r) == colliders_of(collider_data_views(list@)),
{
    let ghost items = collider_data_views(list@);
    let ghost given = list@;
    let ghost total = list.len();
    let mut result: Vec<(Collider, Transform)> = Vec::new();
    let mut taken = reversed(list);
    let mut done: usize = 0;
    assert(entries_view(result@) =~= Seq::empty());
    while taken.len() > 0
        invariant
            done + taken.len() == total,
            total == items.len(),
            items == collider_data_views(given),
            given == list@,
            forall|k: int|
                0 <= k < taken.len() ==> (#[trigger] taken@[k])@ == items[total - 1 - k],
            colliders_of(items.take(done as int)) == Ok::<
                Seq<(ColliderView, Transform)>,
                ExtrasErrorView,
            >(entries_view(result@)),
        decreases taken.len(),
    {
        let d = taken.pop().unwrap();
        assert(items.take(done + 1).drop_last() == items.take(done as int));
        match collider_from_data(d) {
            Err(e) => {
                proof {
                    lemma_colliders_of_error(items, done + 1);
                }
                return Err(e);
            },
            Ok(entry) => {
                let ghost before = entries_view(result@);
                result.push(entry);
                assert(entries_view(result@) == before.push((entry.0@, entry.1)));
            },
        }
        done += 1;
    }
    assert(items.take(done as int) == items);
    Ok(result)
}

/// Once a front part of a list fails, the whole list fails the same way.
pub proof fn lemma_colliders_of_error(items: Seq<ColliderDataView>, n: int)
    requires
        0 <= n <= items.len(),
        colliders_of(items.take(n)) is Err,
    ensures
        colliders_of(items) == colliders_of(items.take(n)),
    decreases items.len() - n,
{
    if n < items.len() {
        assert(items.take(n + 1).drop_last() == items.take(n));
        lemma_colliders_of_error(items, n + 1);
    } else {
        assert(items.take(n) == items);
    }
}

/// The shapes that the document in `collider_data` gives, from the outcome of
/// parsing it.
pub fn colliders_from_document(doc: Result<serde_json::Value, String>) -> (r: Result<
    Vec<(Collider, Transform)>,
    ColliderExtrasParsingError,
>)
    ensures
        colliders_view(r) == document_colliders(document_view(doc)),
{
    match doc {
        Err(message) => Err(ColliderExtrasParsingError::InvalidColliderDataFormat(message)),
        Ok(v) => match read_collider_list(&v) {
            None => Err(
                ColliderExtrasParsingError::InvalidColliderDataFormat(
                    String::from_str("collider data does not have the expected layout"),
                ),
            ),
            Some(list) => colliders_from_list(list),
        },
    }
}

/// The text of `collider_data`, from the outcome of parsing a payload.
pub fn collider_data_text(doc: Result<serde_json::Value, String>) -> (r: Option<
    Result<String, ColliderExtrasParsingError>,
>)
    ensures
        match r {
            None => payload_collider_data(document_view(doc)) is None,
            Some(Ok(inner)) => payload_collider_data(document_view(doc)) == Some(
                Ok::<Seq<char>, ExtrasErrorView>(inner@),
            ),
            Some(Err(e)) => payload_collider_data(document_view(doc)) == Some(
                Err::<Seq<char>, ExtrasErrorView>(e@),
            ),
        },
{
    match doc {
        Err(message) => Some(Err(ColliderExtrasParsingError::InvalidColliderDataFormat(message))),
        Ok(v) => match member(&v, "collider_data") {
            None => None,
            Some(m) => match text(m) {
                None => None,
                Some(inner) => Some(Ok(String::from_str(inner))),
            },
        },
    }
}

/// Reads the shapes that a metadata payload declares.
///
/// `None` means that the payload is metadata of another kind. An error means
/// that the payload does declare colliders and is malformed; no shape of it is
/// then given.
pub fn process_extras_collider(extras: &str) -> (r: Option<
    Result<Vec<(Collider, Transform)>, ColliderExtrasParsingError>,
>)
    ensures
        match r {
            None => extras_colliders(extras@) is None,
            Some(outcome) => extras_colliders(extras@) == Some(colliders_view(outcome)),
        },
{
    let outer = parse(extras);
    match collider_data_text(outer) {
        None => None,
        Some(Err(e)) => Some(Err(e)),
        Some(Ok(inner)) => {
            let doc = parse(inner.as_str());
            Some(colliders_from_document(doc))
        },
    }
}

} // verus!
