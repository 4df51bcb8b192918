use mcu_link::device::{Code, MCUData};
use mcu_link::error::LinkError;

#[test]
fn new_device_is_disconnected() {
    let d = MCUData::new(String::from("/dev/ttyUSB0"));
    assert_eq!(d.name, "/dev/ttyUSB0");
    assert!(!d.is_active);
    assert_eq!(d.temperature, 0);
}

#[test]
fn device_setters_touch_one_field() {
    let mut d = MCUData::new(String::from("/dev/ttyACM1"));
    d.set_connected(true);
    d.set_telemetry(42);
    assert!(d.is_active);
    assert_eq!(d.temperature, 42);
    assert_eq!(d.name, "/dev/ttyACM1");
    d.set_connected(false);
    assert!(!d.is_active);
    assert_eq!(d.temperature, 42);
}

#[test]
fn code_constructors() {
    let c = Code::new();
    assert_eq!(c.code, "");
    assert!(c.compiled.is_none());
    let c = Code::from_string(String::from("int main(){}"));
    assert_eq!(c.code, "int main(){}");
    assert!(c.compiled.is_none());
}

#[test]
fn build_with_artifact_keeps_elf_image() {
    let mut c = Code::from_string(String::from("int main(){}"));
    let image = vec![0x7F, b'E', b'L', b'F', 1, 1, 1, 0];
    let r = c.record_build(true, Some(image.clone()), String::new());
    assert_eq!(r, Ok(()));
    let kept = c.compiled.unwrap();
    assert_eq!(kept, image);
    assert_eq!(&kept[..4], &[0x7F, b'E', b'L', b'F']);
}

#[test]
fn build_failure_carries_diagnostics() {
    let mut c = Code::from_string(String::from("int main("));
    let r = c.record_build(false, None, String::from("error: expected ')'"));
    assert_eq!(r, Err(LinkError::CompileError(String::from("error: expected ')'"))));
    assert!(c.compiled.is_none());
}

#[test]
fn build_without_artifact_fails_even_on_clean_exit() {
    let mut c = Code::from_string(String::from("int main(){}"));
    let r = c.record_build(true, None, String::from("no output"));
    assert_eq!(r, Err(LinkError::CompileError(String::from("no output"))));
    assert!(c.compiled.is_none());
}
