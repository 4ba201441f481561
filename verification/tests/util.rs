use floretta::util::{LocalMap, TypeMap, ValType};

fn ones() -> TypeMap<u32> {
    TypeMap {
        i32: 1,
        i64: 1,
        float32: 1,
        float64: 1,
    }
}

#[test]
fn test_locals_map_zero() {
    let mut locals = LocalMap::new(TypeMap { i32: 0, ..ones() });
    locals.push(1, ValType::I32);
    locals.push(1, ValType::F64);
    assert_eq!(locals.get(0), (ValType::I32, None));
    assert_eq!(locals.get(1), (ValType::F64, Some(0)));
}

#[test]
fn test_locals_entry_zero() {
    let mut locals = LocalMap::new(ones());
    locals.push(1, ValType::I32);
    locals.push(0, ValType::I64);
    locals.push(0, ValType::F32);
    locals.push(1, ValType::F64);
    assert_eq!(locals.get(0), (ValType::I32, Some(0)));
    assert_eq!(locals.get(1), (ValType::F64, Some(1)));
}

#[test]
fn test_locals_entry_multiple() {
    let mut type_map = ones();
    type_map.i32 = 2;
    let mut locals = LocalMap::new(type_map);
    locals.push(3, ValType::F64);
    locals.push(5, ValType::I32);
    assert_eq!(locals.get(0), (ValType::F64, Some(0)));
    assert_eq!(locals.get(1), (ValType::F64, Some(1)));
    assert_eq!(locals.get(2), (ValType::F64, Some(2)));
    assert_eq!(locals.get(3), (ValType::I32, Some(3)));
    assert_eq!(locals.get(4), (ValType::I32, Some(5)));
    assert_eq!(locals.get(5), (ValType::I32, Some(7)));
    assert_eq!(locals.get(6), (ValType::I32, Some(9)));
    assert_eq!(locals.get(7), (ValType::I32, Some(11)));
}
