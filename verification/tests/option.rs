use crust_std::option::Option;
use crust_std::option::Option::Absent;
use crust_std::option::Option::Present;

#[test]
fn map_laws() {
    let absent: Option<u32> = Absent;
    assert_eq!(absent.map(|x| x + 1), None);
    assert_eq!(Present(4u32).map(|x| x + 1), Some(5));
}

#[test]
fn unwrap_or_laws() {
    assert_eq!(Present(3).unwrap_or(9), 3);
    let absent: Option<i32> = Absent;
    assert_eq!(absent.unwrap_or(9), 9);
}

#[test]
fn or_laws() {
    assert_eq!(Present(3).or(Some(9)), Some(3));
    assert_eq!(Present(3).or(None), Some(3));
    let absent: Option<i32> = Absent;
    assert_eq!(absent.or(Some(9)), Some(9));
    let absent: Option<i32> = Absent;
    assert_eq!(absent.or(None), None);
}

#[test]
fn state_queries() {
    let x: Option<u32> = Present(2);
    assert!(x.is_some());
    assert!(!x.is_none());
    let y: Option<u32> = Absent;
    assert!(!y.is_some());
    assert!(y.is_none());
    assert!(Present(2u32).is_some_and(|x| x > 1));
    assert!(!Present(0u32).is_some_and(|x| x > 1));
    let z: Option<u32> = Absent;
    assert!(!z.is_some_and(|x| x > 1));
}

#[test]
fn unwrap_returns_the_value() {
    assert_eq!(Present("air").unwrap(), "air");
}

#[test]
fn unwrap_or_else_and_default() {
    let k = 10;
    assert_eq!(Present(4).unwrap_or_else(|| 2 * k), 4);
    let absent: Option<i32> = Absent;
    assert_eq!(absent.unwrap_or_else(|| 2 * k), 20);
    let x: Option<u32> = Absent;
    assert_eq!(x.unwrap_or_default(), 0);
    assert_eq!(Present(12u32).unwrap_or_default(), 12);
}

#[test]
fn transformations_are_not_called_on_absent() {
    let absent: Option<u32> = Absent;
    let mut called = false;
    let r = absent.map(|x| {
        called = true;
        x
    });
    assert_eq!(r, None);
    let absent: Option<u32> = Absent;
    assert_eq!(absent.and_then(|x| Some(x + 1)), None);
    let absent: Option<u32> = Absent;
    assert_eq!(absent.filter(|_| true), Absent);
    assert!(!called);
}

#[test]
fn map_or_and_map_or_else() {
    assert_eq!(Present("foo").map_or(42, |v| v.len()), 3);
    let absent: Option<&str> = Absent;
    assert_eq!(absent.map_or(42, |v| v.len()), 42);
    let k = 21;
    assert_eq!(Present("foo").map_or_else(|| 2 * k, |v| v.len()), 3);
    let absent: Option<&str> = Absent;
    assert_eq!(absent.map_or_else(|| 2 * k, |v| v.len()), 42);
}

#[test]
fn ok_or_and_ok_or_else() {
    assert_eq!(Present("foo").ok_or(0), Ok("foo"));
    let absent: Option<&str> = Absent;
    assert_eq!(absent.ok_or(0), Err(0));
    assert_eq!(Present("foo").ok_or_else(|| 0), Ok("foo"));
    let absent: Option<&str> = Absent;
    assert_eq!(absent.ok_or_else(|| 7), Err(7));
}

#[test]
fn and_and_then_filter() {
    assert_eq!(Present(2).and(None::<&str>), None);
    assert_eq!(Present(2).and(Some("foo")), Some("foo"));
    let absent: Option<u32> = Absent;
    assert_eq!(absent.and(Some("foo")), None);
    assert_eq!(Present(2u32).and_then(|x| x.checked_mul(x)), Some(4));
    assert_eq!(Present(1_000_000u32).and_then(|x| x.checked_mul(x)), None);
    assert_eq!(Present(3).filter(|n| n % 2 == 0), Absent);
    assert_eq!(Present(4).filter(|n| n % 2 == 0), Present(4));
}

#[test]
fn or_else_and_xor() {
    assert_eq!(Present("barbarians").or_else(|| Some("vikings")), Some("barbarians"));
    let absent: Option<&str> = Absent;
    assert_eq!(absent.or_else(|| Some("vikings")), Some("vikings"));
    let absent: Option<&str> = Absent;
    assert_eq!(absent.or_else(|| None), None);
    assert_eq!(Present(2).xor(Absent), Some(2));
    assert_eq!(Absent.xor(Present(2)), Some(2));
    assert_eq!(Present(2).xor(Present(2)), None);
    let a: Option<u32> = Absent;
    assert_eq!(a.xor(Absent), None);
}

#[test]
fn insert_and_get_or_insert() {
    let mut opt: Option<i32> = Absent;
    let val = opt.insert(1);
    assert_eq!(*val, 1);
    *val = 3;
    assert_eq!(opt, Present(3));
    let val = opt.insert(2);
    assert_eq!(*val, 2);
    assert_eq!(opt, Present(2));

    let mut x: Option<u32> = Absent;
    {
        let y = x.get_or_insert(5);
        assert_eq!(*y, 5);
        *y = 7;
    }
    assert_eq!(x, Present(7));
    assert_eq!(*x.get_or_insert(9), 7);

    let mut z: Option<u32> = Absent;
    assert_eq!(*z.get_or_insert_with(|| 5), 5);
    assert_eq!(*z.get_or_insert_with(|| 6), 5);
}

#[test]
fn take_and_replace() {
    let mut x = Present(2);
    let y = x.take();
    assert_eq!(x, Absent);
    assert_eq!(y, Present(2));
    let mut x: Option<u32> = Absent;
    let y = x.take();
    assert_eq!(x, Absent);
    assert_eq!(y, Absent);

    let mut x = Present(2);
    let old = x.replace(5);
    assert_eq!(x, Present(5));
    assert_eq!(old, Present(2));
    let mut x = Absent;
    let old = x.replace(3);
    assert_eq!(x, Present(3));
    assert_eq!(old, Absent);
}

#[test]
fn contains_zip_unzip() {
    let x: Option<u32> = Present(2);
    assert!(x.contains(&2));
    assert!(!x.contains(&3));
    let y: Option<u32> = Absent;
    assert!(!y.contains(&2));

    assert_eq!(Present(1).zip(Present("hi")), Some((1, "hi")));
    assert_eq!(Present(1).zip(Absent::<u8>), None);
    assert_eq!(Present(2).zip_with(Present(3), |a, b| a * b), Some(6));
    assert_eq!(Present(2).zip_with(Absent::<i32>, |a, b| a * b), None);
    assert_eq!(Present((1, "hi")).unzip(), (Some(1), Some("hi")));
    assert_eq!(Absent::<(u8, u32)>.unzip(), (None, None));
}

#[test]
fn references_copied_and_cloned() {
    let x = 12;
    assert_eq!(Present(&x).copied(), Some(12));
    assert_eq!(Present(&x).cloned(), Some(12));
    let mut y = 13;
    assert_eq!(Present(&mut y).copied(), Some(13));
    assert_eq!(Present(&mut y).cloned(), Some(13));
    assert_eq!(Absent::<&i32>.copied(), None);

    let text: Option<String> = Present("hey".to_owned());
    assert_eq!(text.as_ref().map(|s| s.len()), Some(3));
    assert_eq!(text.as_deref(), Some("hey"));
    let mut text = text;
    if let Some(s) = text.as_deref_mut() {
        s.make_ascii_uppercase();
    }
    assert_eq!(text, Present("HEY".to_owned()));
    if let Some(s) = text.as_mut() {
        s.push('!');
    }
    assert_eq!(text, Present("HEY!".to_owned()));
    let nothing: Option<String> = Absent;
    assert_eq!(nothing.as_deref(), None);
}

#[test]
fn inspect_sees_the_value_and_returns_it() {
    let mut seen = 0;
    let r = Present(4).inspect(|x| seen = *x);
    assert_eq!(r, Present(4));
    assert_eq!(seen, 4);
}

#[test]
fn transpose_moves_the_error_out() {
    let y: Option<Result<i32, &str>> = Present(Ok(5));
    assert_eq!(y.transpose(), Ok(Some(5)));
    let y: Option<Result<i32, &str>> = Present(Err("bad"));
    assert_eq!(y.transpose(), Err("bad"));
    let y: Option<Result<i32, &str>> = Absent;
    assert_eq!(y.transpose(), Ok(None));
}

#[test]
fn conversion_from_and_to_std_option() {
    let a: Option<i32> = Some(3).into();
    assert_eq!(a, Present(3));
    let b: Option<i32> = None.into();
    assert_eq!(b, Absent);
    let c: std::option::Option<i32> = Present(3).into();
    assert_eq!(c, Some(3));
    let d: std::option::Option<i32> = Absent.into();
    assert_eq!(d, None);
    assert_eq!(Present(String::from("x")).clone(), Present(String::from("x")));
}
