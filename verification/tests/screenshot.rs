use screen_dump::screenshot::{capture_size, main_display, not_capturable, DisplayTarget, Error};

fn d(id: u32, main: bool) -> DisplayTarget {
    DisplayTarget { id, main, pixel_width: 100, pixel_height: 50 }
}

#[test]
fn single_display_is_captured() {
    let r = main_display(Some(d(3, false)), None).ok().unwrap();
    assert_eq!(r.id, 3);
}

#[test]
fn first_main_display_of_a_list_is_captured() {
    let r = main_display(None, Some(vec![d(1, false), d(2, true), d(3, true)])).ok().unwrap();
    assert_eq!(r.id, 2);
    assert!(matches!(main_display(None, Some(vec![d(1, false)])), Err(Error::NoMainDisplay)));
    assert!(matches!(main_display(None, None), Err(Error::NoMainDisplay)));
}

#[test]
fn missing_capture_display_is_a_capture_failure() {
    match not_capturable(17) {
        Error::Capture(m) => assert_eq!(m, "display 17 is not capturable"),
        _ => panic!("expected a capture failure"),
    }
}

#[test]
fn capture_size_wraps_like_a_cast() {
    assert_eq!(capture_size(&d(1, true)), (100, 50));
    let big = DisplayTarget { id: 1, main: true, pixel_width: (1usize << 32) + 7, pixel_height: 9 };
    assert_eq!(capture_size(&big), (7, 9));
}
