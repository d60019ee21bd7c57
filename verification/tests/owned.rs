use crust_std::owned_slice::OwnedSlice;
use crust_std::owned_str::OwnedStr;
use std::ops::Deref;

#[test]
fn owned_slice() {
    let record = r#"
        [1,2,3,4,5]
        "#;

    let parsed: Vec<i32> = serde_json::from_str(record).unwrap();
    let result: OwnedSlice<i32> = parsed.into();
    assert_eq!(3, result[2]);
    let parsed_two: Vec<i32> = serde_json::from_str(
        &serde_json::to_string(result.deref()).expect("Failed to serialize result"),
    )
    .expect("Failed to serialize json");
    let result_two: OwnedSlice<i32> = parsed_two.into();
    assert_eq!(result, result_two);
}

#[test]
fn owned_str() {
    let record = r#"
        "hello world"
        "#;

    let parsed: String = serde_json::from_str(record).unwrap();
    let result: OwnedStr = parsed.into();
    assert_eq!("hello world", result.deref());
    let parsed_two: String = serde_json::from_str(
        &serde_json::to_string(result.deref()).expect("Failed to serialize result"),
    )
    .expect("Failed to serialize json");
    let result_two: OwnedStr = parsed_two.into();
    assert_eq!(result, result_two);
}

#[test]
fn owned_slice_holds_the_elements_it_was_given() {
    let s: OwnedSlice<u8> = vec![1u8, 2, 3].into();
    assert_eq!(s.len(), 3);
    assert_eq!(&s[..], &[1, 2, 3]);
    let b: Box<[u8]> = s.into_box();
    assert_eq!(&b[..], &[1, 2, 3]);
    let s: OwnedSlice<u8> = b.into();
    assert_eq!(s.into_vec(), vec![1, 2, 3]);
}

#[test]
fn owned_slice_from_vec_with_spare_capacity() {
    let mut v: Vec<u32> = Vec::with_capacity(100);
    v.push(7);
    v.push(8);
    let s: OwnedSlice<u32> = v.into();
    assert_eq!(s.len(), 2);
    let back = s.into_vec();
    assert_eq!(back, vec![7, 8]);
    assert_eq!(back.capacity(), 2);
}

#[test]
fn empty_owned_slice() {
    let s: OwnedSlice<String> = OwnedSlice::default();
    assert_eq!(s.len(), 0);
    assert!(s.is_empty());
    assert_eq!(s.into_vec(), Vec::<String>::new());
    let t: OwnedSlice<u8> = Vec::new().into();
    assert_eq!(t, OwnedSlice::default());
}

#[test]
fn owned_slice_equality_is_by_content() {
    let a: OwnedSlice<i32> = vec![1, 2, 3].into();
    let mut spare = Vec::with_capacity(32);
    spare.extend_from_slice(&[1, 2, 3]);
    let b: OwnedSlice<i32> = spare.into();
    let c: OwnedSlice<i32> = vec![1, 2, 4].into();
    let d: OwnedSlice<i32> = vec![1, 2].into();
    assert_eq!(a, b);
    assert_ne!(a, c);
    assert_ne!(a, d);
}

#[test]
fn owned_slice_clone_and_from_slice() {
    let a = OwnedSlice::from_slice(&[String::from("x"), String::from("yz")]);
    let b = a.clone();
    assert_eq!(a, b);
    assert_eq!(b.len(), 2);
    assert_eq!(b[1], "yz");
}

#[test]
fn owned_slice_into_iter_is_in_index_order() {
    let a: OwnedSlice<i32> = vec![5, 6, 7].into();
    let it = a.into_iter();
    assert_eq!(it.len(), 3);
    assert_eq!(it.collect::<Vec<i32>>(), vec![5, 6, 7]);
}

#[test]
fn owned_slice_elements_can_be_written() {
    let mut a: OwnedSlice<i32> = vec![5, 6, 7].into();
    a[1] = 60;
    assert_eq!(&a[..], &[5, 60, 7]);
}

#[test]
fn string_round_trip_is_byte_identical() {
    for s in ["", "hello world", "h\u{e9}llo", "\u{65e5}\u{672c}\u{8a9e}", "a\u{1f600}b", "\0"] {
        let text: OwnedStr = s.to_string().into();
        assert_eq!(text.as_bytes(), s.as_bytes());
        assert_eq!(text.deref(), s);
        let back: String = text.into_string();
        assert_eq!(back.as_bytes(), s.as_bytes());
    }
}

#[test]
fn owned_str_conversions() {
    let boxed: Box<str> = "caf\u{e9}".into();
    let text: OwnedStr = boxed.into();
    assert_eq!(text.deref(), "caf\u{e9}");
    assert_eq!(text.len(), 5);
    let again: Box<str> = text.clone().into_box();
    assert_eq!(&*again, "caf\u{e9}");
    let s: String = text.clone().into();
    assert_eq!(s, "caf\u{e9}");
    let b: Box<str> = text.into();
    assert_eq!(&*b, "caf\u{e9}");
}

#[test]
fn owned_str_default_clone_and_equality() {
    let empty = OwnedStr::default();
    assert_eq!(empty.deref(), "");
    assert_eq!(empty.as_bytes(), b"");
    let a: OwnedStr = String::from("abc").into();
    let b = a.clone();
    let c: OwnedStr = String::from("abd").into();
    assert_eq!(a, b);
    assert_ne!(a, c);
    assert_ne!(a, empty);
}

#[test]
fn owned_slice_collects_an_iterator_in_order() {
    let s: OwnedSlice<i32> = (1..5).map(|x| x * x).collect();
    assert_eq!(&s[..], &[1, 4, 9, 16]);
}

#[test]
fn growable_array_freezes_into_an_owned_slice() {
    let mut v: crust_std::vec::Vec<u16> = crust_std::vec::Vec::new();
    for x in [3u16, 1, 4] {
        v.push(x);
    }
    assert_eq!(v.cap(), 4);
    let s: OwnedSlice<u16> = v.into();
    assert_eq!(&s[..], &[3, 1, 4]);
    assert_eq!(s.into_vec().capacity(), 3);
}
