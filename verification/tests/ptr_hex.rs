use tfmt::{uformat, Argument};

fn text(template: &str, args: &[Argument]) -> String {
    uformat(template, args).unwrap()
}

// an address is written as a pointer is: in base sixteen behind `0x`
#[test]
fn ptr_hex_ptr() {
    assert_eq!(
        text("{:?}", &[Argument::Pointer(1)]),
        format!("{:#x}", 1_usize)
    );
    assert_eq!(
        text("{:?}", &[Argument::Pointer(0xf)]),
        format!("{:#x}", 0xf_usize)
    );
    assert_eq!(
        text("{:?}", &[Argument::Pointer(0xff)]),
        format!("{:#x}", 0xff_usize)
    );
    assert_eq!(
        text("{:?}", &[Argument::Pointer(0xfff)]),
        format!("{:#x}", 0xfff_usize)
    );
    assert_eq!(
        text("{:?}", &[Argument::Pointer(0xffff)]),
        format!("{:#x}", 0xffff_usize)
    );
    assert_eq!(
        text("{:?}", &[Argument::Pointer(0xfffff)]),
        format!("{:#x}", 0xfffff_usize)
    );
    assert_eq!(
        text("{:?}", &[Argument::Pointer(0xffffff)]),
        format!("{:#x}", 0xffffff_usize)
    );
    assert_eq!(
        text("{:?}", &[Argument::Pointer(0xfffffff)]),
        format!("{:#x}", 0xfffffff_usize)
    );
    assert_eq!(
        text("{:?}", &[Argument::Pointer(0xffffffff)]),
        format!("{:#x}", 0xffffffff_usize)
    );
    assert_eq!(
        text("{:?}", &[Argument::Pointer(0xfffffffff)]),
        format!("{:#x}", 0xfffffffff_usize)
    );
}

#[test]
fn hex() {
    assert_eq!(text("{:x}", &[Argument::U32(771u32)]), format!("{:x}", 771u32));
    assert_eq!(text("{:x}", &[Argument::I32(-10000)]), format!("{:x}", -10000));
    assert_eq!(text("{:4x}", &[Argument::I32(33)]), format!("{:4x}", 33));
    assert_eq!(text("{:4x}", &[Argument::I32(89001)]), format!("{:4x}", 89001));
    assert_eq!(text("{:04x}", &[Argument::I32(33)]), format!("{:04x}", 33));
    assert_eq!(text("{:#03x}", &[Argument::I32(33)]), format!("{:#03x}", 33));
    assert_eq!(text("{:#09x}", &[Argument::I32(33)]), format!("{:#09x}", 33));
    assert_eq!(text("{:#x}", &[Argument::I32(71)]), format!("{:#x}", 71));

    // extreme values
    assert_eq!(text("{:x}", &[Argument::I8(i8::MIN)]), format!("{:x}", i8::MIN));
    assert_eq!(text("{:x}", &[Argument::I8(i8::MAX)]), format!("{:x}", i8::MAX));
    assert_eq!(text("{:x}", &[Argument::I16(i16::MIN)]), format!("{:x}", i16::MIN));
    assert_eq!(text("{:x}", &[Argument::I16(i16::MAX)]), format!("{:x}", i16::MAX));
    assert_eq!(text("{:x}", &[Argument::I32(i32::MIN)]), format!("{:x}", i32::MIN));
    assert_eq!(text("{:x}", &[Argument::I32(i32::MAX)]), format!("{:x}", i32::MAX));
    assert_eq!(text("{:x}", &[Argument::I64(i64::MIN)]), format!("{:x}", i64::MIN));
    assert_eq!(text("{:x}", &[Argument::I64(i64::MAX)]), format!("{:x}", i64::MAX));
    assert_eq!(text("{:x}", &[Argument::I128(i128::MIN)]), format!("{:x}", i128::MIN));
    assert_eq!(text("{:x}", &[Argument::I128(i128::MAX)]), format!("{:x}", i128::MAX));
    assert_eq!(text("{:x}", &[Argument::Isize(isize::MIN)]), format!("{:x}", isize::MIN));
    assert_eq!(text("{:x}", &[Argument::Isize(isize::MAX)]), format!("{:x}", isize::MAX));
}
