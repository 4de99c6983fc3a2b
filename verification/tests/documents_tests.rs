use smithy4rs_core::documents::{DefaultDocumentValue, Document, DocumentError};
use smithy4rs_core::numbers::Decimal;
use smithy4rs_core::schema::prelude_schema;
use smithy4rs_core::shapes::ShapeType;

fn same_schema(doc: &Document, t: ShapeType) {
    let expected = prelude_schema(t);
    assert_eq!(doc.schema().id().id(), expected.id().id());
    assert_eq!(doc.schema().shape_type(), expected.shape_type());
}

#[test]
fn documents_string_document_value() {
    let document_str = Document::from_str("MyStr");
    same_schema(&document_str, ShapeType::String);
    assert_eq!(document_str.schema().id().id(), "smithy.api#String");
    let output_str: String = document_str.as_string().unwrap().to_string();
    assert_eq!(output_str, "MyStr".to_string());

    let document_string = Document::from_string("MyString".to_string());
    same_schema(&document_string, ShapeType::String);
    let output_string: String = document_string.as_string().unwrap().to_string();
    assert_eq!(&output_string, &"MyString");
}

#[test]
fn list_document_value() {
    let vec = vec!["a", "b", "c"];
    let document_list = Document::from_list(vec.iter().map(|s| Document::from_str(s)).collect());
    assert_eq!(document_list.schema().id().id(), "smithy.api#Document");
    assert_eq!(document_list.schema().shape_type(), ShapeType::List);
    assert_eq!(document_list.size(), 3);
    let vec_out: Vec<String> = document_list
        .value
        .into_list()
        .ok()
        .unwrap()
        .into_iter()
        .map(|d| d.value.into_string().ok().unwrap())
        .collect();
    assert_eq!(vec_out.len(), 3);
    assert_eq!(vec_out[0], "a");
    assert_eq!(vec_out[1], "b");
    assert_eq!(vec_out[2], "c");
}

#[test]
fn map_document_value() {
    let map_in = vec![("a".to_string(), Document::from_str("b"))];
    let map_doc = Document::from_map(map_in);
    assert_eq!(map_doc.schema().id().id(), "smithy.api#Document");
    assert_eq!(map_doc.schema().shape_type(), ShapeType::MapType);
    assert_eq!(map_doc.size(), 1);

    let map_out = map_doc.value.into_map().ok().unwrap();
    assert_eq!(map_out.len(), 1);
    assert_eq!(map_out[0].0, "a");
    assert_eq!(map_out[0].1.as_string().unwrap(), "b");
}

#[test]
fn integer_document_values() {
    let byte = Document::from_i8(1);
    same_schema(&byte, ShapeType::Byte);
    let short = Document::from_i16(1);
    same_schema(&short, ShapeType::Short);
    let integer = Document::from_i32(1);
    same_schema(&integer, ShapeType::Integer);
    let long = Document::from_i64(1);
    same_schema(&long, ShapeType::Long);
}

#[test]
fn float_document_values() {
    let float = Document::from_f32_bits(1f32.to_bits());
    same_schema(&float, ShapeType::Float);
    let double = Document::from_f64_bits(1f64.to_bits());
    same_schema(&double, ShapeType::Double);
    assert_eq!(float.get_type(), Some(ShapeType::Float));
    assert_eq!(double.get_type(), Some(ShapeType::Double));
}

#[test]
fn numbers_convert_between_widths() {
    // a long that fits in a byte converts to a byte
    let long = Document::from_i64(100);
    assert_eq!(long.as_byte(), Some(100));
    assert_eq!(long.as_short(), Some(100));
    assert_eq!(long.as_integer(), Some(100));
    // a value that does not fit gives nothing
    let big = Document::from_i32(300);
    assert_eq!(big.as_byte(), None);
    assert_eq!(big.as_short(), Some(300));
    let min_long = Document::from_i64(i64::MIN);
    assert_eq!(min_long.as_integer(), None);
    assert_eq!(min_long.as_long(), Some(i64::MIN));
    // edges of the byte range
    assert_eq!(Document::from_i32(127).as_byte(), Some(127));
    assert_eq!(Document::from_i32(128).as_byte(), None);
    assert_eq!(Document::from_i32(-128).as_byte(), Some(-128));
    assert_eq!(Document::from_i32(-129).as_byte(), None);
}

#[test]
fn conversion_errors_name_expected_type() {
    let doc = Document::from_str("x");
    match doc.value.into_integer() {
        Err(e) => assert_eq!(
            e.message(),
            "Failed to convert document to type Expected integer document"
        ),
        Ok(_) => panic!("a string is no integer"),
    }
    let doc = Document::from_i32(1);
    match doc.value.into_string() {
        Err(e) => assert_eq!(
            e.message(),
            "Failed to convert document to type Expected string document"
        ),
        Ok(_) => panic!("an integer is no string"),
    }
    assert!(matches!(Document::from_bool(true).value.into_bool(), Ok(true)));
    let doc = Document::from_bool(true);
    match doc.value.into_big_decimal() {
        Err(e) => assert_eq!(
            e.message(),
            "Failed to convert document to type Expected bigInteger document"
        ),
        Ok(_) => panic!("a boolean is no number"),
    }
    assert_eq!(DocumentError::custom("oops").message(), "Encountered error: oops");
}

#[test]
fn big_numbers_in_documents() {
    let doc = Document::from_big_integer(12345678901234567890i128);
    assert_eq!(doc.as_big_integer(), Some(12345678901234567890i128));
    assert_eq!(doc.as_long(), None);
    let d = Decimal { unscaled: 125, scale: 2 };
    let doc = Document::from_big_decimal(d);
    assert_eq!(doc.as_big_decimal(), Some(d));
    assert!(matches!(doc.value(), DefaultDocumentValue::Number(_)));
}

#[test]
fn null_documents() {
    let doc = Document::null_of(ShapeType::String);
    assert!(doc.is_null());
    assert_eq!(doc.get_type(), None);
    assert_eq!(doc.as_string(), None);
    assert_eq!(doc.size(), 0);
}

#[test]
fn document_equality() {
    let a = Document::from_str("x");
    let b = Document::from_string("x".to_string());
    let c = Document::from_str("y");
    assert!(a.equals(&b));
    assert!(!a.equals(&c));
    let one = Document::from_i32(1);
    let one_long = Document::from_i64(1);
    assert!(!one.equals(&one_long));
    let nan = Document::from_f64_bits(f64::NAN.to_bits());
    let nan2 = Document::from_f64_bits(f64::NAN.to_bits());
    assert!(!nan.equals(&nan2));
    let zero = Document::from_f64_bits(0f64.to_bits());
    let neg_zero = Document::from_f64_bits((-0f64).to_bits());
    assert!(zero.equals(&neg_zero));
    let m1 = Document::from_map(vec![("k".to_string(), Document::from_i32(1))]);
    let m2 = Document::from_map(vec![("k".to_string(), Document::from_i32(1))]);
    let m3 = Document::from_map(vec![("k".to_string(), Document::from_i32(2))]);
    assert!(m1.equals(&m2));
    assert!(!m1.equals(&m3));
}

#[test]
fn decimal_documents_compare_by_value() {
    let a = Document::from_big_decimal(Decimal { unscaled: 125, scale: 2 });
    let b = Document::from_big_decimal(Decimal { unscaled: 1250, scale: 3 });
    let c = Document::from_big_decimal(Decimal { unscaled: 126, scale: 2 });
    assert!(a.equals(&b));
    assert!(!a.equals(&c));
}
