use light::loader::get;
use light::loader::get_scene;
use light::loader::parse_f32_from_array;
use light::loader::parse_object;
use light::loader::parse_objects;
use light::loader::parse_sphere;
use light::loader::parse_vec3;
use light::loader::Json;
use light::loader::Member;
use light::loader::Node;
use light::loader::ParseError;
use light::scalar::Scalar;
use light::scene::Object;
use light::shape::Shape;

fn f(x: Scalar) -> f64 {
    f64::from_bits(x.to_bits())
}

/// The value as the library holds it, with the text that it is written as.
fn node(value: &serde_json::Value) -> Node {
    let converted = match value {
        serde_json::Value::Null => Json::Null,
        serde_json::Value::Bool(b) => Json::Bool(*b),
        serde_json::Value::Number(n) => {
            Json::Number(Scalar::from_bits(n.as_f64().unwrap_or(f64::NAN).to_bits()))
        },
        serde_json::Value::String(s) => Json::Text(s.clone()),
        serde_json::Value::Array(items) => Json::Array(items.iter().map(node).collect()),
        serde_json::Value::Object(members) => Json::Object(
            members
                .iter()
                .map(|(key, value)| Member { key: key.clone(), node: node(value) })
                .collect(),
        ),
    };
    Node { text: value.to_string(), value: converted }
}

fn document(text: &str) -> Node {
    let value: serde_json::Value = serde_json::from_str(text).expect("the test's JSON is valid");
    node(&value)
}

fn report(error: ParseError) -> (String, String) {
    (error.value, error.msg)
}

/// Center and radius of the sphere that the object is.
fn sphere(object: &Object) -> ([f64; 3], f64) {
    match &object.shape {
        Shape::Sphere(sphere) => {
            let center = sphere.center();
            ([f(center.x), f(center.y), f(center.z)], f(sphere.radius()))
        },
        _ => panic!("expected a sphere"),
    }
}

#[test]
fn a_member_is_found_by_its_key() {
    let object = document(r#"{"a": 1, "b": [2, 3], "c": {"a": 4}}"#);
    assert_eq!("1", get(&object, "a").unwrap().text);
    assert_eq!("[2,3]", get(&object, "b").unwrap().text);
    assert_eq!("4", get(get(&object, "c").unwrap(), "a").unwrap().text);
    assert!(get(&object, "d").is_none());
    assert!(get(&object, "").is_none());
    assert!(get(&document("[1, 2]"), "a").is_none());
    assert!(get(&document("3"), "a").is_none());
    assert!(get(&document("null"), "a").is_none());
    assert!(get(&document(r#""a""#), "a").is_none());
}

#[test]
fn a_number_is_read_from_an_array() {
    let array = document("[1.5, true]");
    let items = match &array.value {
        Json::Array(items) => items,
        _ => panic!("expected an array"),
    };
    assert_eq!(1.5, f(parse_f32_from_array(&array, &items[0]).ok().unwrap()));
    let error = parse_f32_from_array(&array, &items[1]).err().unwrap();
    assert_eq!(("[1.5,true]".to_string(), String::new()), report(error));
}

#[test]
fn a_vector_is_read_from_three_numbers() {
    let v = parse_vec3(&document("[1, -2.5, 3e2]")).ok().unwrap();
    assert_eq!([1.0, -2.5, 300.0], [f(v.x), f(v.y), f(v.z)]);
    let v = parse_vec3(&document("[1, 2, 3, 4]")).ok().unwrap();
    assert_eq!([1.0, 2.0, 3.0], [f(v.x), f(v.y), f(v.z)]);

    let blank = |text: &str| (text.to_string(), String::new());
    assert_eq!(blank(r#"["x",2,3]"#), report(parse_vec3(&document(r#"["x", 2, 3]"#)).err().unwrap()));
    assert_eq!(blank("[1,null,3]"), report(parse_vec3(&document("[1, null, 3]")).err().unwrap()));
    assert_eq!(blank("[1,2,[3]]"), report(parse_vec3(&document("[1, 2, [3]]")).err().unwrap()));
    assert_eq!(blank("[false]"), report(parse_vec3(&document("[false]")).err().unwrap()));

    let short = |text: &str| (text.to_string(), "Array holds fewer than three items".to_string());
    assert_eq!(short("[]"), report(parse_vec3(&document("[]")).err().unwrap()));
    assert_eq!(short("[1]"), report(parse_vec3(&document("[1]")).err().unwrap()));
    assert_eq!(short("[1,2]"), report(parse_vec3(&document("[1, 2]")).err().unwrap()));

    let error = parse_vec3(&document(r#"{"x": 1}"#)).err().unwrap();
    assert_eq!((r#"{"x":1}"#.to_string(), "Object is not an array".to_string()), report(error));
}

#[test]
fn a_sphere_is_read_from_its_center_and_radius() {
    let object = parse_sphere(&document(r#"{"center": [1, 2, 3], "radius": 4.5}"#)).ok().unwrap();
    assert_eq!(([1.0, 2.0, 3.0], 4.5), sphere(&object));
    assert!(object.material.emission.is_none());
    assert!(object.material.absorption.is_none());
    assert_eq!(1.0, f(object.material.transmittance));
    assert_eq!(0.0, f(object.material.roughness));
    assert_eq!(1.0, f(object.material.refraction_index));
}

#[test]
fn a_sphere_without_center_or_radius_is_a_fault() {
    let fault = |text: &str| report(parse_sphere(&document(text)).err().unwrap()).1;
    assert_eq!("Sphere object defines no center", fault(r#"{"radius": 1}"#));
    assert_eq!("Sphere object defines no center", fault(r#"{}"#));
    assert_eq!("Sphere object defines no center", fault(r#"[1, 2, 3]"#));
    assert_eq!("Sphere object defines no radius", fault(r#"{"center": [1, 2, 3]}"#));
    assert_eq!("Sphere object defines no radius", fault(r#"{"center": 7}"#));
    assert_eq!("Object is not an array", fault(r#"{"center": 7, "radius": 1}"#));
    assert_eq!("", fault(r#"{"center": [1, "2", 3], "radius": 1}"#));
    assert_eq!("Array holds fewer than three items", fault(r#"{"center": [1, 2], "radius": 1}"#));
    assert_eq!("Sphere radius is not a number", fault(r#"{"center": [1, 2, 3], "radius": "1"}"#));
    assert_eq!("Sphere radius is not positive", fault(r#"{"center": [1, 2, 3], "radius": 0}"#));
    assert_eq!("Sphere radius is not positive", fault(r#"{"center": [1, 2, 3], "radius": -2}"#));
    let error = parse_sphere(&document(r#"{"center": [1, true, 3], "radius": 1}"#)).err().unwrap();
    assert_eq!("[1,true,3]", error.value);
    let error = parse_sphere(&document(r#"{"radius": 1}"#)).err().unwrap();
    assert_eq!(r#"{"radius":1}"#, error.value);
}

#[test]
fn an_object_is_read_by_its_type() {
    let text = r#"{"type": "sphere", "center": [0, 10, 50], "radius": 10}"#;
    let object = parse_object(&document(text)).ok().unwrap();
    assert_eq!(([0.0, 10.0, 50.0], 10.0), sphere(&object));

    let fault = |text: &str| report(parse_object(&document(text)).err().unwrap());
    assert_eq!(
        (r#"{"type":"cube"}"#.to_string(), "Unknown object type cube".to_string()),
        fault(r#"{"type": "cube"}"#)
    );
    assert_eq!("Unknown object type ", fault(r#"{"type": ""}"#).1);
    assert_eq!("Unknown object type Sphere", fault(r#"{"type": "Sphere"}"#).1);
    assert_eq!("No object type found", fault(r#"{"type": 3}"#).1);
    assert_eq!("No object type found", fault(r#"{"type": null}"#).1);
    assert_eq!("Object defines no type", fault(r#"{"center": [1, 2, 3], "radius": 1}"#).1);
    assert_eq!("Object defines no type", fault(r#"[]"#).1);
    assert_eq!("Sphere object defines no radius", fault(r#"{"type": "sphere", "center": []}"#).1);
}

#[test]
fn the_objects_of_a_scene_are_read_in_their_order() {
    let scene = document(
        r#"{"objects": [
            {"type": "sphere", "center": [1, 0, 0], "radius": 1},
            {"type": "sphere", "center": [2, 0, 0], "radius": 2},
            {"type": "sphere", "center": [3, 0, 0], "radius": 3}
        ]}"#,
    );
    let objects = parse_objects(&scene).ok().unwrap();
    let spheres: Vec<([f64; 3], f64)> = objects.iter().map(sphere).collect();
    assert_eq!(
        vec![([1.0, 0.0, 0.0], 1.0), ([2.0, 0.0, 0.0], 2.0), ([3.0, 0.0, 0.0], 3.0)],
        spheres
    );
    assert!(parse_objects(&document(r#"{"objects": []}"#)).ok().unwrap().is_empty());
    assert!(parse_objects(&document(r#"{}"#)).ok().unwrap().is_empty());
    assert!(parse_objects(&document(r#"{"objects": 3}"#)).ok().unwrap().is_empty());
    assert!(parse_objects(&document(r#"{"objects": {"type": "cube"}}"#)).ok().unwrap().is_empty());
    assert!(parse_objects(&document(r#"7"#)).ok().unwrap().is_empty());
}

#[test]
fn the_first_fault_among_the_objects_is_the_one_named() {
    let scene = document(
        r#"{"objects": [
            {"type": "sphere", "center": [1, 0, 0], "radius": 1},
            {"type": "cone"},
            {"type": "cube"}
        ]}"#,
    );
    let error = parse_objects(&scene).err().unwrap();
    assert_eq!((r#"{"type":"cone"}"#.to_string(), "Unknown object type cone".to_string()), report(error));
}

#[test]
fn a_scene_is_read_from_a_document() {
    let text = r#"{
        "scene": {
            "objects": [
                {"type": "sphere", "center": [-30, 10, 50], "radius": 10},
                {"type": "sphere", "center": [0, 2, 10], "radius": 2}
            ]
        }
    }"#;
    let scene = get_scene(&document(text)).unwrap();
    let spheres: Vec<([f64; 3], f64)> = scene.get_objects().iter().map(sphere).collect();
    assert_eq!(vec![([-30.0, 10.0, 50.0], 10.0), ([0.0, 2.0, 10.0], 2.0)], spheres);
    assert!(scene.is_well_formed());

    assert_eq!(0, get_scene(&document(r#"{"scene": {}}"#)).unwrap().get_objects().len());
    assert_eq!(0, get_scene(&document(r#"{"scene": 1}"#)).unwrap().get_objects().len());
    assert!(get_scene(&document(r#"{}"#)).is_none());
    assert!(get_scene(&document(r#"{"Scene": {}}"#)).is_none());
    assert!(get_scene(&document(r#"[]"#)).is_none());
    assert!(get_scene(&document(r#"{"scene": {"objects": [{"type": "cube"}]}}"#)).is_none());
    assert!(get_scene(&document(r#"{"scene": {"objects": [{}]}}"#)).is_none());
}
