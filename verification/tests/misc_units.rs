use sebastian::edges::base64_encode;
use sebastian::handdrawn::Rng;
use sebastian::raster::{FontSource, RasterError, RasterOptions};
use sebastian::svg::{escape_attr, escape_text};
use sebastian::xychart::{parse_category_list_exec, take_text_exec, unquote_exec, XyParseError};

#[test]
fn base64_matches_btoa() {
    assert_eq!(base64_encode(b""), "");
    assert_eq!(base64_encode(b"f"), "Zg==");
    assert_eq!(base64_encode(b"fo"), "Zm8=");
    assert_eq!(base64_encode(b"foo"), "Zm9v");
    assert_eq!(base64_encode(b"foobar"), "Zm9vYmFy");
    assert_eq!(base64_encode(&[0xff, 0xfe, 0x3e]), "//4+");
    assert_eq!(base64_encode(b"[{\"x\":1,\"y\":2}]"), "W3sieCI6MSwieSI6Mn1d");
}

#[test]
fn escapes_for_attributes_and_text() {
    assert_eq!(escape_attr("a&b<c>\"d\"\te\nf\r"), "a&amp;b&lt;c&gt;&quot;d&quot;&#9;e&#10;f&#13;");
    assert_eq!(escape_text("A & B <x>\""), "A &amp; B &lt;x&gt;\"");
    assert_eq!(escape_text("plain"), "plain");
}

#[test]
fn mulberry32_sequence() {
    let mut r = Rng::new(1);
    let a = r.next_bits();
    let b = r.next_bits();
    assert_eq!(r.state, 1u32.wrapping_add(0x6D2B_79F5).wrapping_add(0x6D2B_79F5));
    let mut s = Rng::new(1);
    assert_eq!(s.next_bits(), a);
    assert_eq!(s.next_bits(), b);
    assert_eq!(a, 2_693_262_067);
}

#[test]
fn raster_defaults_and_messages() {
    let o = RasterOptions::default();
    assert_eq!(o.background, Some([255, 255, 255, 255]));
    assert_eq!(o.extra_height, 0);
    assert!(o.overlay_svg.is_none());
    assert!(o.fonts == FontSource::Embedded);
    assert!(FontSource::default() == FontSource::Embedded);
    assert_eq!(RasterError::Parse("bad".to_string()).display(), "SVG parse error: bad");
    assert_eq!(RasterError::Encode("oom".to_string()).display(), "PNG encode error: oom");
}

#[test]
fn xychart_text_helpers() {
    let q: Vec<char> = "  \"Sales\" ".chars().collect();
    assert_eq!(unquote_exec(&q), "Sales");
    let t: Vec<char> = " \"Revenue\" [a, b]".chars().collect();
    let (title, rest) = take_text_exec(&t);
    assert_eq!(title, "Revenue");
    assert_eq!(rest.iter().collect::<String>(), "[a, b]");
    let u: Vec<char> = "plain 1 --> 2".chars().collect();
    let (title2, rest2) = take_text_exec(&u);
    assert_eq!(title2, "");
    assert_eq!(rest2.iter().collect::<String>(), "plain 1 --> 2");
    let c: Vec<char> = "[jan, \"feb\", mar]".chars().collect();
    assert_eq!(parse_category_list_exec(&c), Some(vec!["jan".to_string(), "feb".to_string(), "mar".to_string()]));
    let d: Vec<char> = "jan, feb".chars().collect();
    assert_eq!(parse_category_list_exec(&d), None);
    let e = XyParseError { message: "No Plot to render".to_string() };
    assert_eq!(e.display(), "xychart parse error: No Plot to render");
}

#[test]
fn generator_outputs_follow_the_counter() {
    let mut a = Rng::new(7);
    for _ in 0..5 {
        a.next_bits();
    }
    let fifth_next = a.next_bits();
    let mut b = Rng::new(7u32.wrapping_add(5u32.wrapping_mul(0x6D2B_79F5)));
    assert_eq!(b.next_bits(), fifth_next);
    assert_eq!(a.state, 7u32.wrapping_add(6u32.wrapping_mul(0x6D2B_79F5)));
}
