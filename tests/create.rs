use interp_env::create::{create, index_token, OpCodeResultType};
use interp_env::number::Number;
use interp_env::store::Bindings;
use interp_env::value::ValueType;
use interp_env::value::ValueType::{Arr, Int, Line};

fn num(x: f64) -> ValueType {
    Int(Number::from_bits(x.to_bits()))
}

fn literal_of(value: &ValueType) -> Option<Number> {
    match value {
        Line(s) => index_token(s)
            .and_then(|t| t.parse::<f64>().ok())
            .map(|f| Number::from_bits(f.to_bits())),
        _ => None,
    }
}

fn assign(key: &String, value: &ValueType, map: &mut Bindings) -> Result<OpCodeResultType, String> {
    let literal = literal_of(value);
    create(key, value, map, literal)
}

#[test]
fn test_basic_create_one() {
    let mut map = Bindings::new();
    let binding = String::from("test_key");
    let _ = assign(&binding, &num(10.0), &mut map);
    let result = map.get(&binding);
    assert_eq!(result, Some(num(10.0)));
}

#[test]
fn test_basic_create_two() {
    let mut map = Bindings::new();
    let binding = String::from("test_key");
    let _ = assign(&binding, &Line("b 2".to_string()), &mut map);
    let result = map.get(&binding);
    assert_eq!(result, Some(Line("b 2".to_string())));
}

#[test]
fn test_basic_create_three() {
    let mut map = Bindings::new();
    let binding = String::from("test_key");
    let _ = assign(&binding, &Line("qwert".to_string()), &mut map);
    let result = map.get(&binding);
    assert_eq!(result, Some(Line("qwert".to_string())));
}

#[test]
fn test_not_basic_create_one() {
    let mut map = Bindings::new();
    let old_key = String::from("old_key");
    let new_key = String::from("new_key");

    map.set(&old_key, num(10.0));

    let _ = assign(&new_key, &Line("old_key".to_string()), &mut map);

    assert_eq!(map.get(&old_key), Some(num(10.0)));
    assert_eq!(map.get(&new_key), Some(num(10.0)));
}

#[test]
fn test_not_basic_create_two() {
    let mut map = Bindings::new();
    let old_key = String::from("old_key");
    let new_key = String::from("new_key");

    map.set(&old_key, Line("line".to_string()));

    let _ = assign(&new_key, &Line("old_key".to_string()), &mut map);

    assert_eq!(map.get(&old_key), Some(Line("line".to_string())));
    assert_eq!(map.get(&new_key), Some(Line("line".to_string())));
}

#[test]
fn test_not_basic_create_three() {
    let mut map = Bindings::new();
    let old_key = String::from("old_key");
    let new_key = String::from("new_key");

    map.set(&old_key, Line("line".to_string()));

    let _ = assign(&new_key, &Line("old_key 1".to_string()), &mut map);

    assert_eq!(map.get(&old_key), Some(Line("line".to_string())));
    assert_eq!(map.get(&new_key), Some(Line("i".to_string())));
}

#[test]
fn test_not_basic_create_float() {
    let mut map = Bindings::new();
    let old_key = String::from("old_key");
    let new_key = String::from("new_key");

    map.set(&old_key, Line("line".to_string()));

    let _ = assign(&new_key, &Line("old_key 1.43".to_string()), &mut map);

    assert_eq!(map.get(&old_key), Some(Line("line".to_string())));
    assert_eq!(map.get(&new_key), Some(Line("i".to_string())));
}

#[test]
fn test_not_basic_create_float_two() {
    let mut map = Bindings::new();
    let old_key = String::from("old_key");
    let new_key = String::from("new_key");

    map.set(&old_key, Line("line".to_string()));

    let _ = assign(&new_key, &Line("old_key 1.93".to_string()), &mut map);

    assert_eq!(map.get(&old_key), Some(Line("line".to_string())));
    assert_eq!(map.get(&new_key), Some(Line("i".to_string())));
}

#[test]
fn test_not_basic_create_four() {
    let mut map = Bindings::new();
    let old_key = String::from("old_key");
    let old_key_2 = String::from("old_key_2");
    let new_key = String::from("new_key");

    map.set(&old_key, Line("line".to_string()));
    map.set(&old_key_2, num(1.0));

    let _ = assign(&new_key, &Line("old_key old_key_2".to_string()), &mut map);

    assert_eq!(map.get(&old_key), Some(Line("line".to_string())));
    assert_eq!(map.get(&new_key), Some(Line("i".to_string())));
}

#[test]
fn test_not_stand_create_one() {
    let mut map = Bindings::new();
    let old_key = String::from("old_key");
    let new_key = String::from("new_key");

    map.set(&old_key, num(1.0));

    let _ = assign(&new_key, &Line("old_key 2".to_string()), &mut map);

    assert_eq!(map.get(&old_key), Some(num(1.0)));
    assert_eq!(map.get(&new_key), Some(Line("old_key 2".to_string())));
}

#[test]
fn test_not_stand_create_two() {
    let mut map = Bindings::new();
    let old_key = String::from("old_key");
    let old_key_2 = String::from("old_key_2");
    let new_key = String::from("new_key");

    map.set(&old_key, Line("line".to_string()));
    map.set(&old_key_2, num(10.0));

    let _ = assign(&new_key, &Line("old_key old_key_2".to_string()), &mut map);

    assert_eq!(map.get(&old_key), Some(Line("line".to_string())));
    assert_eq!(map.get(&new_key), Some(Line("".to_string())));
}
