use tfmt::{uformat, Argument};

fn text(template: &str, args: &[Argument]) -> String {
    uformat(template, args).unwrap()
}

#[test]
fn uxx_min_max() {
    assert_eq!(text("{}", &[Argument::U8(u8::MAX)]), format!("{}", u8::MAX));
    assert_eq!(text("{:?}", &[Argument::U16(u16::MAX)]), format!("{:?}", u16::MAX));
    assert_eq!(text("{}", &[Argument::U32(u32::MAX)]), format!("{}", u32::MAX));
    assert_eq!(text("{}", &[Argument::U64(u64::MAX)]), format!("{}", u64::MAX));
    assert_eq!(text("{}", &[Argument::U128(u128::MAX)]), format!("{}", u128::MAX));
    assert_eq!(text("{}", &[Argument::Usize(usize::MAX)]), format!("{}", usize::MAX));

    assert_eq!(text("{}", &[Argument::U8(0_u8)]), format!("{}", 0_u8));
    assert_eq!(text("{}", &[Argument::U16(0_u16)]), format!("{}", 0_u16));
    assert_eq!(text("{}", &[Argument::U32(0_u32)]), format!("{}", 0_u32));
    assert_eq!(text("{}", &[Argument::U64(0_u64)]), format!("{}", 0_u64));
    assert_eq!(text("{}", &[Argument::U128(0_u128)]), format!("{}", 0_u128));
    assert_eq!(text("{}", &[Argument::Usize(0_usize)]), format!("{}", 0_usize));
}

#[test]
fn uxx_aligned() {
    // extreme values
    assert_eq!(text("{:10}", &[Argument::U8(235_u8)]), format!("{:10}", 235_u8));
    assert_eq!(text("{:10}", &[Argument::U16(235_u16)]), format!("{:10}", 235_u16));
    assert_eq!(text("{:10}", &[Argument::U32(235_u32)]), format!("{:10}", 235_u32));
    assert_eq!(text("{:10}", &[Argument::U64(235_u64)]), format!("{:10}", 235_u64));
    assert_eq!(text("{:10}", &[Argument::U128(235_u128)]), format!("{:10}", 235_u128));
    assert_eq!(text("{:10}", &[Argument::Usize(235_usize)]), format!("{:10}", 235_usize));

    assert_eq!(text("{:<10}", &[Argument::U8(235_u8)]), format!("{:<10}", 235_u8));
    assert_eq!(text("{:<10}", &[Argument::U16(235_u16)]), format!("{:<10}", 235_u16));
    assert_eq!(text("{:<10}", &[Argument::U32(235_u32)]), format!("{:<10}", 235_u32));
    assert_eq!(text("{:<10}", &[Argument::U64(235_u64)]), format!("{:<10}", 235_u64));
    assert_eq!(text("{:<10}", &[Argument::U128(235_u128)]), format!("{:<10}", 235_u128));
    assert_eq!(text("{:<10}", &[Argument::Usize(235_usize)]), format!("{:<10}", 235_usize));

    assert_eq!(text("{:>10}", &[Argument::U8(235_u8)]), format!("{:>10}", 235_u8));
    assert_eq!(text("{:>10}", &[Argument::U16(235_u16)]), format!("{:>10}", 235_u16));
    assert_eq!(text("{:>10}", &[Argument::U32(235_u32)]), format!("{:>10}", 235_u32));
    assert_eq!(text("{:>10}", &[Argument::U64(235_u64)]), format!("{:>10}", 235_u64));
    assert_eq!(text("{:>10}", &[Argument::U128(235_u128)]), format!("{:>10}", 235_u128));
    assert_eq!(text("{:>10}", &[Argument::Usize(235_usize)]), format!("{:>10}", 235_usize));

    assert_eq!(text("{:0>10}", &[Argument::U8(235_u8)]), format!("{:0>10}", 235_u8));
    assert_eq!(text("{:0<10}", &[Argument::U16(235_u16)]), format!("{:0<10}", 235_u16));
    assert_eq!(text("{:0^10}", &[Argument::U32(235_u32)]), format!("{:0^10}", 235_u32));
    assert_eq!(text("{:0>10}", &[Argument::U64(235_u64)]), format!("{:0>10}", 235_u64));
    assert_eq!(text("{:0<10}", &[Argument::U128(235_u128)]), format!("{:0<10}", 235_u128));
    assert_eq!(text("{:0^10}", &[Argument::Usize(235_usize)]), format!("{:0^10}", 235_usize));
}

#[test]
fn uxx_hex() {
    assert_eq!(text("{:10x}", &[Argument::U8(235_u8)]), format!("{:10x}", 235_u8));
    assert_eq!(text("{:10X}", &[Argument::U16(235_u16)]), format!("{:10X}", 235_u16));
    assert_eq!(text("{:10x}", &[Argument::U32(235_u32)]), format!("{:10x}", 235_u32));
    assert_eq!(text("{:10X}", &[Argument::U64(235_u64)]), format!("{:10X}", 235_u64));
    assert_eq!(text("{:10x}", &[Argument::U128(235_u128)]), format!("{:10x}", 235_u128));
    assert_eq!(text("{:10X}", &[Argument::Usize(235_usize)]), format!("{:10X}", 235_usize));

    assert_eq!(text("{:#10x}", &[Argument::U8(235_u8)]), format!("{:#10x}", 235_u8));
    assert_eq!(text("{:#10X}", &[Argument::U16(235_u16)]), format!("{:#10X}", 235_u16));
    assert_eq!(text("{:#10x}", &[Argument::U32(235_u32)]), format!("{:#10x}", 235_u32));
    assert_eq!(text("{:#10X}", &[Argument::U64(235_u64)]), format!("{:#10X}", 235_u64));
    assert_eq!(text("{:#10x}", &[Argument::U128(235_u128)]), format!("{:#10x}", 235_u128));
    assert_eq!(text("{:#10X}", &[Argument::Usize(235_usize)]), format!("{:#10X}", 235_usize));

    assert_eq!(text("{:x}", &[Argument::U8(u8::MAX)]), format!("{:x}", u8::MAX));
    assert_eq!(text("{:x}", &[Argument::U16(u16::MAX)]), format!("{:x}", u16::MAX));
    assert_eq!(text("{:#x}", &[Argument::U32(u32::MAX)]), format!("{:#x}", u32::MAX));
    assert_eq!(text("{:#x}", &[Argument::U64(u64::MAX)]), format!("{:#x}", u64::MAX));
    assert_eq!(text("{:x}", &[Argument::U128(u128::MAX)]), format!("{:x}", u128::MAX));
    assert_eq!(text("{:x}", &[Argument::Usize(usize::MAX)]), format!("{:x}", usize::MAX));

    assert_eq!(text("{:#x}", &[Argument::U8(0_u8)]), format!("{:#x}", 0_u8));
    assert_eq!(text("{:#x}", &[Argument::U16(0_u16)]), format!("{:#x}", 0_u16));
    assert_eq!(text("{:x}", &[Argument::U32(0_u32)]), format!("{:x}", 0_u32));
    assert_eq!(text("{:x}", &[Argument::U64(0_u64)]), format!("{:x}", 0_u64));
    assert_eq!(text("{:#x}", &[Argument::U128(0_u128)]), format!("{:#x}", 0_u128));
    assert_eq!(text("{:#x}", &[Argument::Usize(0_usize)]), format!("{:#x}", 0_usize));
}

#[test]
fn ixx_min_max() {
    assert_eq!(text("{}", &[Argument::I8(i8::MIN)]), format!("{}", i8::MIN));
    assert_eq!(text("{}", &[Argument::I8(i8::MAX)]), format!("{}", i8::MAX));
    assert_eq!(text("{}", &[Argument::I16(i16::MIN)]), format!("{}", i16::MIN));
    assert_eq!(text("{}", &[Argument::I16(i16::MAX)]), format!("{}", i16::MAX));
    assert_eq!(text("{}", &[Argument::I32(i32::MIN)]), format!("{}", i32::MIN));
    assert_eq!(text("{}", &[Argument::I32(i32::MAX)]), format!("{}", i32::MAX));
    assert_eq!(text("{}", &[Argument::I64(i64::MIN)]), format!("{}", i64::MIN));
    assert_eq!(text("{}", &[Argument::I64(i64::MAX)]), format!("{}", i64::MAX));
    assert_eq!(text("{}", &[Argument::I128(i128::MIN)]), format!("{}", i128::MIN));
    assert_eq!(text("{}", &[Argument::I128(i128::MAX)]), format!("{}", i128::MAX));
    assert_eq!(text("{}", &[Argument::Isize(isize::MIN)]), format!("{}", isize::MIN));
    assert_eq!(text("{}", &[Argument::Isize(isize::MAX)]), format!("{}", isize::MAX));
}

#[test]
fn ixx_aligned() {
    assert_eq!(text("{:10}", &[Argument::I8(-115_i8)]), format!("{:10}", -115_i8));
    assert_eq!(text("{:10}", &[Argument::I16(-115_i16)]), format!("{:10}", -115_i16));
    assert_eq!(text("{:10}", &[Argument::I32(-115_i32)]), format!("{:10}", -115_i32));
    assert_eq!(text("{:10}", &[Argument::I64(-115_i64)]), format!("{:10}", -115_i64));
    assert_eq!(text("{:10}", &[Argument::I128(-115_i128)]), format!("{:10}", -115_i128));
    assert_eq!(text("{:10}", &[Argument::Isize(-115_isize)]), format!("{:10}", -115_isize));

    assert_eq!(text("{:<10}", &[Argument::I8(-115_i8)]), format!("{:<10}", -115_i8));
    assert_eq!(text("{:<10}", &[Argument::I16(-115_i16)]), format!("{:<10}", -115_i16));
    assert_eq!(text("{:<10}", &[Argument::I32(-115_i32)]), format!("{:<10}", -115_i32));
    assert_eq!(text("{:<10}", &[Argument::I64(-115_i64)]), format!("{:<10}", -115_i64));
    assert_eq!(text("{:<10}", &[Argument::I128(-115_i128)]), format!("{:<10}", -115_i128));
    assert_eq!(text("{:<10}", &[Argument::Isize(-115_isize)]), format!("{:<10}", -115_isize));

    assert_eq!(text("{:>10}", &[Argument::I8(-115_i8)]), format!("{:>10}", -115_i8));
    assert_eq!(text("{:>10}", &[Argument::I16(-115_i16)]), format!("{:>10}", -115_i16));
    assert_eq!(text("{:>10}", &[Argument::I32(-115_i32)]), format!("{:>10}", -115_i32));
    assert_eq!(text("{:>10}", &[Argument::I64(-115_i64)]), format!("{:>10}", -115_i64));
    assert_eq!(text("{:>10}", &[Argument::I128(-115_i128)]), format!("{:>10}", -115_i128));
    assert_eq!(text("{:>10}", &[Argument::Isize(-115_isize)]), format!("{:>10}", -115_isize));

    assert_eq!(text("{:0>10}", &[Argument::I8(-115_i8)]), format!("{:0>10}", -115_i8));
    assert_eq!(text("{:0<10}", &[Argument::I16(-115_i16)]), format!("{:0<10}", -115_i16));
    assert_eq!(text("{:0^10}", &[Argument::I32(-115_i32)]), format!("{:0^10}", -115_i32));
    assert_eq!(text("{:0>10}", &[Argument::I64(-115_i64)]), format!("{:0>10}", -115_i64));
    assert_eq!(text("{:0<10}", &[Argument::I128(-115_i128)]), format!("{:0<10}", -115_i128));
    assert_eq!(text("{:0^10}", &[Argument::Isize(-115_isize)]), format!("{:0^10}", -115_isize));
}

#[test]
fn ixx_hex() {
    assert_eq!(text("{:10x}", &[Argument::I8(111_i8)]), format!("{:10x}", 111_i8));
    assert_eq!(text("{:10X}", &[Argument::I16(-235_i16)]), format!("{:10X}", -235_i16));
    assert_eq!(text("{:10x}", &[Argument::I32(-235_i32)]), format!("{:10x}", -235_i32));
    assert_eq!(text("{:10X}", &[Argument::I64(235_i64)]), format!("{:10X}", 235_i64));
    assert_eq!(text("{:10x}", &[Argument::I128(-235_i128)]), format!("{:10x}", -235_i128));
    assert_eq!(text("{:10X}", &[Argument::Isize(235_isize)]), format!("{:10X}", 235_isize));

    assert_eq!(text("{:#10x}", &[Argument::I8(111_i8)]), format!("{:#10x}", 111_i8));
    assert_eq!(text("{:#10X}", &[Argument::I16(-235_i16)]), format!("{:#10X}", -235_i16));
    assert_eq!(text("{:#10x}", &[Argument::I32(-235_i32)]), format!("{:#10x}", -235_i32));
    assert_eq!(text("{:#10X}", &[Argument::I64(235_i64)]), format!("{:#10X}", 235_i64));
    assert_eq!(text("{:#10x}", &[Argument::I128(-235_i128)]), format!("{:#10x}", -235_i128));
    assert_eq!(text("{:#10X}", &[Argument::Isize(235_isize)]), format!("{:#10X}", 235_isize));

    assert_eq!(text("{:x}", &[Argument::I8(i8::MIN)]), format!("{:x}", i8::MIN));
    assert_eq!(text("{:x}", &[Argument::I8(i8::MAX)]), format!("{:x}", i8::MAX));
    assert_eq!(text("{:#x}", &[Argument::I16(i16::MIN)]), format!("{:#x}", i16::MIN));
    assert_eq!(text("{:#x}", &[Argument::I16(i16::MAX)]), format!("{:#x}", i16::MAX));
    assert_eq!(text("{:x}", &[Argument::I32(i32::MIN)]), format!("{:x}", i32::MIN));
    assert_eq!(text("{:x}", &[Argument::I32(i32::MAX)]), format!("{:x}", i32::MAX));
    assert_eq!(text("{:#x}", &[Argument::I64(i64::MIN)]), format!("{:#x}", i64::MIN));
    assert_eq!(text("{:#x}", &[Argument::I64(i64::MAX)]), format!("{:#x}", i64::MAX));
    assert_eq!(text("{:x}", &[Argument::I128(i128::MIN)]), format!("{:x}", i128::MIN));
    assert_eq!(text("{:x}", &[Argument::I128(i128::MAX)]), format!("{:x}", i128::MAX));
    assert_eq!(text("{:#x}", &[Argument::Isize(isize::MIN)]), format!("{:#x}", isize::MIN));
    assert_eq!(text("{:#x}", &[Argument::Isize(isize::MAX)]), format!("{:#x}", isize::MAX));
}

// an address is written as a pointer is: in base sixteen behind `0x`
#[test]
fn int_ptr() {
    assert_eq!(
        text("{:?}", &[Argument::Pointer(1)]),
        format!("{:#x}", 1_usize)
    );
    assert_eq!(
        text("{:?}", &[Argument::Pointer(0xf)]),
        format!("{:#x}", 0xf_usize)
    );
    assert_eq!(
        text("{:?}", &[Argument::Pointer(0xff)]),
        format!("{:#x}", 0xff_usize)
    );
    assert_eq!(
        text("{:?}", &[Argument::Pointer(0xfff)]),
        format!("{:#x}", 0xfff_usize)
    );
    assert_eq!(
        text("{:?}", &[Argument::Pointer(0xffff)]),
        format!("{:#x}", 0xffff_usize)
    );
    assert_eq!(
        text("{:?}", &[Argument::Pointer(0xfffff)]),
        format!("{:#x}", 0xfffff_usize)
    );
    assert_eq!(
        text("{:?}", &[Argument::Pointer(0xffffff)]),
        format!("{:#x}", 0xffffff_usize)
    );
    assert_eq!(
        text("{:?}", &[Argument::Pointer(0xfffffff)]),
        format!("{:#x}", 0xfffffff_usize)
    );
    assert_eq!(
        text("{:?}", &[Argument::Pointer(0xffffffff)]),
        format!("{:#x}", 0xffffffff_usize)
    );
    assert_eq!(
        text("{:?}", &[Argument::Pointer(0xfffffffff)]),
        format!("{:#x}", 0xfffffffff_usize)
    );
}
