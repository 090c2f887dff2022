use grust::enumeration;
use grust::enumeration::{IntrospectedEnum, UnknownValue};
use grust::types::gint;

#[derive(Clone, Copy, Debug, Eq, PartialEq)]
enum MyEnum {
    Foo,
    Bar,
}

impl IntrospectedEnum for MyEnum {
    fn from_int(v: gint) -> Result<Self, UnknownValue> {
        match v {
            1 => Ok(MyEnum::Foo),
            2 => Ok(MyEnum::Bar),
            _ => Err(UnknownValue(v)),
        }
    }

    fn to_int(&self) -> gint {
        match *self {
            MyEnum::Foo => 1,
            MyEnum::Bar => 2,
        }
    }

    fn name(&self) -> &'static str {
        match *self {
            MyEnum::Foo => "foo",
            MyEnum::Bar => "bar",
        }
    }
}

#[test]
fn test_enum_from_int() {
    let v: MyEnum = enumeration::from_int(1).unwrap();
    assert_eq!(v, MyEnum::Foo);
    let v: MyEnum = enumeration::from_int(2).unwrap();
    assert_eq!(v, MyEnum::Bar);
}

#[test]
fn test_unknown_value() {
    let res = enumeration::from_int::<MyEnum>(0);
    assert_eq!(res.err().unwrap(), UnknownValue(0))
}

#[test]
fn test_unknown_value_texts() {
    assert_eq!(UnknownValue(0).description(), "unknown enumeration value");
    assert_eq!(UnknownValue(0).to_string(), "unknown enumeration value 0");
    assert_eq!(UnknownValue(42).to_string(), "unknown enumeration value 42");
    assert_eq!(UnknownValue(-7).to_string(), "unknown enumeration value -7");
    assert_eq!(UnknownValue(gint::MAX).to_string(), "unknown enumeration value 2147483647");
}
