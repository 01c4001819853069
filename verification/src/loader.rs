//! Scenes from structured documents.
//!
//! A document is a tree of values as JSON has them. Every value carries the
//! text that it was written as, so that a value that cannot be understood can
//! be reported as it stands.

use vstd::prelude::*;
use crate::material::Material;
use crate::scalar::Scalar;
use crate::scalar::ONE_BITS;
use crate::scene::Object;
use crate::scene::Scene;
use crate::shape::Shape;
use crate::shape::Sphere;
use crate::vec3::Vec3;

verus! {

/// A value of a document.
#[derive(Debug)]
pub enum Json {
    Null,
    Bool(bool),
    Number(Scalar),
    Text(String),
    Array(Vec<Node>),
    Object(Vec<Member>),
}

/// A value of a document, and the text that it was written as.
#[derive(Debug)]
pub struct Node {
    pub text: String,
    pub value: Json,
}

/// A named value of an object of a document.
#[derive(Debug)]
pub struct Member {
    pub key: String,
    pub node: Node,
}

/// A value that could not be understood, and why.
#[derive(Debug)]
pub struct ParseError {
    pub value: String,
    pub msg: String,
}

/// What a `ParseError` says: the text of the value, and the reason.
pub struct Fault {
    pub value: Seq<char>,
    pub msg: Seq<char>,
}

impl View for ParseError {
    type V = Fault;

    open spec fn view(&self) -> Fault {
        Fault { value: self.value@, msg: self.msg@ }
    }
}

/// The first of the members that has the key.
pub open spec fn lookup(members: Seq<Member>, key: Seq<char>) -> Option<Node>
    decreases members.len(),
{
    if members.len() == 0 {
        None
    } else if members.first().key@ == key {
        Some(members.first().node)
    } else {
        lookup(members.drop_first(), key)
    }
}

/// The member of an object that has the key; none if the value is no object
/// or has no such member.
pub open spec fn member(node: Node, key: Seq<char>) -> Option<Node> {
    match node.value {
        Json::Object(members) => lookup(members@, key),
        _ => None,
    }
}

/// The number that a value is; none if it is no number.
pub open spec fn number_of(node: Node) -> Option<Scalar> {
    match node.value {
        Json::Number(x) => Some(x),
        _ => None,
    }
}

/// The fault of a value, for a reason.
pub open spec fn fault(node: Node, msg: Seq<char>) -> Fault {
    Fault { value: node.text@, msg }
}

/// The vector that an array of three numbers stands for. The items are read
/// in turn: a missing one and one that is no number are faults.
pub open spec fn vec3_of(array: Node) -> Result<Vec3, Fault> {
    match array.value {
        Json::Array(items) => {
            if items.len() < 1 {
                Err(fault(array, "Array holds fewer than three items"@))
            } else if number_of(items[0]).is_none() {
                Err(fault(array, ""@))
            } else if items.len() < 2 {
                Err(fault(array, "Array holds fewer than three items"@))
            } else if number_of(items[1]).is_none() {
                Err(fault(array, ""@))
            } else if items.len() < 3 {
                Err(fault(array, "Array holds fewer than three items"@))
            } else if number_of(items[2]).is_none() {
                Err(fault(array, ""@))
            } else {
                Ok(
                    Vec3 {
                        x: number_of(items[0]).unwrap(),
                        y: number_of(items[1]).unwrap(),
                        z: number_of(items[2]).unwrap(),
                    },
                )
            }
        },
        _ => Err(fault(array, "Object is not an array"@)),
    }
}

/// A surface that is dark and passes on all light.
pub open spec fn plain_material() -> Material {
    Material {
        emission: None,
        absorption: None,
        transmittance: Scalar::of(ONE_BITS),
        roughness: Scalar::of(0),
        refraction_index: Scalar::of(ONE_BITS),
    }
}

/// The sphere that an object of a document describes, by its members
/// `center`, an array of three numbers, and `radius`, a positive number.
pub open spec fn sphere_of(obj: Node) -> Result<Object, Fault> {
    let center = member(obj, "center"@);
    let radius = member(obj, "radius"@);
    if center.is_none() {
        Err(fault(obj, "Sphere object defines no center"@))
    } else if radius.is_none() {
        Err(fault(obj, "Sphere object defines no radius"@))
    } else if vec3_of(center.unwrap()).is_err() {
        Err(vec3_of(center.unwrap())->Err_0)
    } else if number_of(radius.unwrap()).is_none() {
        Err(fault(obj, "Sphere radius is not a number"@))
    } else if !number_of(radius.unwrap()).unwrap().positive() {
        Err(fault(obj, "Sphere radius is not positive"@))
    } else {
        Ok(
            Object {
                shape: Shape::Sphere(
                    Sphere {
                        center: vec3_of(center.unwrap())->Ok_0,
                        radius: number_of(radius.unwrap()).unwrap(),
                    },
                ),
                material: plain_material(),
            },
        )
    }
}

/// The object that an object of a document describes. Its member `type` says
/// of what kind it is; the one kind there is is `sphere`.
pub open spec fn object_of(obj: Node) -> Result<Object, Fault> {
    match member(obj, "type"@) {
        None => Err(fault(obj, "Object defines no type"@)),
        Some(kind) => match kind.value {
            Json::Text(name) => if name@ == "sphere"@ {
                sphere_of(obj)
            } else {
                Err(fault(obj, "Unknown object type "@ + name@))
            },
            _ => Err(fault(obj, "No object type found"@)),
        },
    }
}

/// The objects that the entries describe, in their order; the fault of the
/// first entry that has one.
pub open spec fn objects_of(entries: Seq<Node>) -> Result<Seq<Object>, Fault>
    decreases entries.len(),
{
    if entries.len() == 0 {
        Ok(Seq::empty())
    } else {
        match objects_of(entries.drop_last()) {
            Err(f) => Err(f),
            Ok(objects) => match object_of(entries.last()) {
                Err(f) => Err(f),
                Ok(object) => Ok(objects.push(object)),
            },
        }
    }
}

/// The objects of the scene that a value describes by its member `objects`:
/// none if it has no such member or the member is no array.
pub open spec fn scene_objects_of(scene_value: Node) -> Result<Seq<Object>, Fault> {
    match member(scene_value, "objects"@) {
        None => Ok(Seq::empty()),
        Some(objects) => match objects.value {
            Json::Array(entries) => objects_of(entries@),
            _ => Ok(Seq::empty()),
        },
    }
}

/// The member of an object that has the key.
pub fn get<'a>(node: &'a Node, key: &str) -> (found: Option<&'a Node>)
    ensures
        found.is_some() == member(*node, key@).is_some(),
        found.is_some() ==> *found.unwrap() == member(*node, key@).unwrap(),
{
    match &node.value {
        Json::Object(members) => {
            let wanted = String::from_str(key);
            let mut k: usize = 0;
            assert(members@.skip(0) =~= members@);
            while k < members.len()
                invariant
                    0 <= k <= members.len(),
                    wanted@ == key@,
                    member(*node, key@) == lookup(members@, key@),
                    lookup(members@, key@) == lookup(members@.skip(k as int), key@),
                decreases members.len() - k,
            {
                let ghost rest = members@.skip(k as int);
                assert(rest.first() == members@[k as int]);
                if members[k].key == wanted {
                    assert(lookup(rest, key@) == Some(rest.first().node));
                    return Some(&members[k].node);
                }
                assert(lookup(rest, key@) == lookup(rest.drop_first(), key@));
                assert(rest.drop_first() =~= members@.skip(k + 1));
                k += 1;
            }
            assert(members@.skip(k as int).len() == 0);
            None
        },
        _ => None,
    }
}

/// A report of a value that could not be understood.
fn error(node: &Node, msg: &str) -> (e: ParseError)
    ensures
        e@ == fault(*node, msg@),
{
    ParseError { value: node.text.clone(), msg: String::from_str(msg) }
}

/// The number that item `index` of an array is. A value that is no number
/// is reported with the text of the array.
pub fn parse_f32_from_array(array_obj: &Node, value: &Node) -> (number: Result<Scalar, ParseError>)
    ensures
        match number_of(*value) {
            Some(x) => number == Ok::<Scalar, ParseError>(x),
            None => number.is_err() && number.unwrap_err()@ == fault(*array_obj, ""@),
        },
{
    match &value.value {
        Json::Number(x) => Ok(*x),
        _ => Err(error(array_obj, "")),
    }
}

/// The vector that an array of three numbers stands for.
pub fn parse_vec3(array_obj: &Node) -> (vector: Result<Vec3, ParseError>)
    ensures
        match vec3_of(*array_obj) {
            Ok(v) => vector == Ok::<Vec3, ParseError>(v),
            Err(f) => vector.is_err() && vector.unwrap_err()@ == f,
        },
{
    match &array_obj.value {
        Json::Array(items) => {
            if items.len() < 1 {
                return Err(error(array_obj, "Array holds fewer than three items"));
            }
            let x = match parse_f32_from_array(array_obj, &items[0]) {
                Ok(x) => x,
                Err(e) => {
                    return Err(e);
                },
            };
            if items.len() < 2 {
                return Err(error(array_obj, "Array holds fewer than three items"));
            }
            let y = match parse_f32_from_array(array_obj, &items[1]) {
                Ok(y) => y,
                Err(e) => {
                    return Err(e);
                },
            };
            if items.len() < 3 {
                return Err(error(array_obj, "Array holds fewer than three items"));
            }
            let z = match parse_f32_from_array(array_obj, &items[2]) {
                Ok(z) => z,
                Err(e) => {
                    return Err(e);
                },
            };
            Ok(Vec3::new(x, y, z))
        },
        _ => Err(error(array_obj, "Object is not an array")),
    }
}

/// The sphere that an object of a document describes.
pub fn parse_sphere(sphere_obj: &Node) -> (sphere: Result<Object, ParseError>)
    ensures
        match sphere_of(*sphere_obj) {
            Ok(object) => sphere == Ok::<Object, ParseError>(object),
            Err(f) => sphere.is_err() && sphere.unwrap_err()@ == f,
        },
{
    let center_json = match get(sphere_obj, "center") {
        Some(center_json) => center_json,
        None => {
            return Err(error(sphere_obj, "Sphere object defines no center"));
        },
    };
    let radius_json = match get(sphere_obj, "radius") {
        Some(radius_json) => radius_json,
        None => {
            return Err(error(sphere_obj, "Sphere object defines no radius"));
        },
    };
    let center = match parse_vec3(center_json) {
        Ok(center) => center,
        Err(e) => {
            return Err(e);
        },
    };
    let radius = match &radius_json.value {
        Json::Number(radius) => *radius,
        _ => {
            return Err(error(sphere_obj, "Sphere radius is not a number"));
        },
    };
    if !radius.is_positive() {
        return Err(error(sphere_obj, "Sphere radius is not positive"));
    }
    Ok(Object { shape: Shape::Sphere(Sphere::new(center, radius)), material: Material::new() })
}

/// The object that an object of a document describes.
pub fn parse_object(obj_json: &Node) -> (object: Result<Object, ParseError>)
    ensures
        match object_of(*obj_json) {
            Ok(o) => object == Ok::<Object, ParseError>(o),
            Err(f) => object.is_err() && object.unwrap_err()@ == f,
        },
{
    match get(obj_json, "type") {
        None => Err(error(obj_json, "Object defines no type")),
        Some(kind) => match &kind.value {
            Json::Text(name) => {
                if *name == String::from_str("sphere") {
                    parse_sphere(obj_json)
                } else {
                    let msg = String::from_str("Unknown object type ").concat(name.as_str());
                    Err(ParseError { value: obj_json.text.clone(), msg })
                }
            },
            _ => Err(error(obj_json, "No object type found")),
        },
    }
}

/// The objects of the scene that a value describes by its member `objects`,
/// in their order; the first fault among them, if there is one.
pub fn parse_objects(scene_value: &Node) -> (objects: Result<Vec<Object>, ParseError>)
    ensures
        match scene_objects_of(*scene_value) {
            Ok(list) => objects.is_ok() && objects.unwrap()@ == list,
            Err(f) => objects.is_err() && objects.unwrap_err()@ == f,
        },
{
    let mut objects: Vec<Object> = Vec::new();
    match get(scene_value, "objects") {
        None => {},
        Some(objects_json) => match &objects_json.value {
            Json::Array(entries) => {
                let mut k: usize = 0;
                while k < entries.len()
                    invariant
                        0 <= k <= entries.len(),
                        scene_objects_of(*scene_value) == objects_of(entries@),
                        objects_of(entries@.take(k as int)) == Ok::<Seq<Object>, Fault>(objects@),
                    decreases entries.len() - k,
                {
                    assert(entries@.take(k + 1).drop_last() =~= entries@.take(k as int));
                    assert(entries@.take(k + 1).last() == entries@[k as int]);
                    match parse_object(&entries[k]) {
                        Ok(object) => {
                            objects.push(object);
                        },
                        Err(e) => {
                            proof {
                                assert(objects_of(entries@.take(k + 1)) == Err::<Seq<Object>, Fault>(
                                    e@,
                                ));
                                lemma_fault_stays(entries@, k + 1);
                            }
                            return Err(e);
                        },
                    }
                    k += 1;
                }
                assert(entries@.take(k as int) =~= entries@);
            },
            _ => {},
        },
    }
    Ok(objects)
}

/// A fault among the first `n` entries is the fault of them all.
proof fn lemma_fault_stays(entries: Seq<Node>, n: int)
    requires
        0 <= n <= entries.len(),
        objects_of(entries.take(n)).is_err(),
    ensures
        objects_of(entries) == objects_of(entries.take(n)),
    decreases entries.len() - n,
{
    if n < entries.len() {
        assert(entries.take(n + 1).drop_last() =~= entries.take(n));
        lemma_fault_stays(entries, n + 1);
    } else {
        assert(entries.take(n) =~= entries);
    }
}

/// The scene that a document describes by its member `scene`: none if it has
/// no such member or one of the scene's objects has a fault.
pub fn get_scene(document: &Node) -> (scene: Option<Scene>)
    ensures
        match member(*document, "scene"@) {
            None => scene.is_none(),
            Some(scene_value) => match scene_objects_of(scene_value) {
                Ok(list) => scene.is_some() && scene.unwrap().objects@ == list
                    && scene.unwrap().well_formed(),
                Err(_) => scene.is_none(),
            },
        },
{
    match get(document, "scene") {
        None => None,
        Some(scene_value) => match parse_objects(scene_value) {
            Ok(objects) => {
                proof {
                    lemma_plain_objects(*scene_value);
                }
                let mut scene = Scene::new();
                scene.objects = objects;
                Some(scene)
            },
            Err(_) => None,
        },
    }
}

/// Every object that is read from a document has a well-formed material.
proof fn lemma_plain_objects(scene_value: Node)
    ensures
        scene_objects_of(scene_value) matches Ok(list) ==> crate::scene::all_well_formed(list),
{
    match member(scene_value, "objects"@) {
        None => {},
        Some(objects) => match objects.value {
            Json::Array(entries) => {
                lemma_plain_entries(entries@);
            },
            _ => {},
        },
    }
}

/// Every object that is read from a list of entries has a well-formed material.
proof fn lemma_plain_entries(entries: Seq<Node>)
    ensures
        objects_of(entries) matches Ok(list) ==> crate::scene::all_well_formed(list),
    decreases entries.len(),
{
    if entries.len() > 0 {
        lemma_plain_entries(entries.drop_last());
    }
}

} // verus!
