use script_server::body::{Body, SupportedBodies};
use script_server::text::{str_eq, u64_to_dec};

#[test]
fn bodies_carry_their_content() {
    let b = Body::empty();
    assert!(matches!(b.inner(), SupportedBodies::Empty));
    let b = Body::string("hello".to_string());
    assert!(matches!(b.inner(), SupportedBodies::String(s) if s == "hello"));
    let b = Body::from(SupportedBodies::String("via from".to_string()));
    assert!(matches!(b.inner(), SupportedBodies::String(s) if s == "via from"));
}

#[test]
fn decimal_rendering_is_exact() {
    assert_eq!(u64_to_dec(0), "0");
    assert_eq!(u64_to_dec(7), "7");
    assert_eq!(u64_to_dec(1204), "1204");
    assert_eq!(u64_to_dec(u64::MAX), u64::MAX.to_string());
}

#[test]
fn string_equality_goes_by_characters() {
    assert!(str_eq("", ""));
    assert!(str_eq("abc", "abc"));
    assert!(!str_eq("abc", "abd"));
    assert!(!str_eq("abc", "abcd"));
    assert!(str_eq("naïve", "naïve"));
}
