use atat::AtatCmd;
use atat::AtatLen;
use atat::LengthTester;
use atat::MixedEnum;
use atat::SimpleEnum;
use atat::SimpleEnumU32;

#[test]
fn test_atat_len() {
    assert_eq!(<char as AtatLen>::LEN, 1);
    assert_eq!(<bool as AtatLen>::LEN, 5);
    assert_eq!(<isize as AtatLen>::LEN, 19);
    assert_eq!(<usize as AtatLen>::LEN, 20);
    assert_eq!(<u8 as AtatLen>::LEN, 3);
    assert_eq!(<u16 as AtatLen>::LEN, 5);
    assert_eq!(<u32 as AtatLen>::LEN, 10);
    assert_eq!(<u64 as AtatLen>::LEN, 20);
    assert_eq!(<u128 as AtatLen>::LEN, 39);
    assert_eq!(<i8 as AtatLen>::LEN, 4);
    assert_eq!(<i16 as AtatLen>::LEN, 6);
    assert_eq!(<i32 as AtatLen>::LEN, 11);
    assert_eq!(<i64 as AtatLen>::LEN, 20);
    assert_eq!(<i128 as AtatLen>::LEN, 40);

    assert_eq!(<SimpleEnum as AtatLen>::LEN, 3);
    assert_eq!(<SimpleEnumU32 as AtatLen>::LEN, 10);
    // (fields) + (n_fields - 1)
    // (3 + 128 + 2 + 150 + 3 + 10 + 3) + 6
    assert_eq!(
        <LengthTester as AtatLen>::LEN,
        (3 + 128 + 2 + 150 + 3 + 10 + 3) + 6
    );
    assert_eq!(<MixedEnum as AtatLen>::LEN, (3 + 3 + 10 + 20 + 10) + 4);
}

#[test]
fn test_mixed_enum() {
    assert_eq!(MixedEnum::UnitVariant.as_fields(), b"0".to_vec());
    assert_eq!(
        MixedEnum::SingleSimpleTuple(15).as_fields(),
        b"1,15".to_vec()
    );
    assert_eq!(
        MixedEnum::AdvancedTuple(25, b"testing".to_vec(), -54, SimpleEnumU32::A).as_fields(),
        b"2,25,\"testing\",-54,0".to_vec()
    );
    assert_eq!(
        MixedEnum::SingleSimpleStruct { x: 35 }.as_fields(),
        b"3,35".to_vec()
    );
    assert_eq!(
        MixedEnum::AdvancedStruct {
            a: 77,
            b: b"whaat".to_vec(),
            c: 88,
            d: SimpleEnum::B
        }
        .as_fields(),
        b"4,77,\"whaat\",88,1".to_vec()
    );

    assert_eq!(
        MixedEnum::from_fields(b"0"),
        Some(MixedEnum::UnitVariant)
    );
    assert_eq!(
        MixedEnum::from_fields(b"1,67"),
        Some(MixedEnum::SingleSimpleTuple(67))
    );
    assert_eq!(
        MixedEnum::from_fields(b"2,251,\"deser\",-43,2"),
        Some(MixedEnum::AdvancedTuple(
            251,
            b"deser".to_vec(),
            -43,
            SimpleEnumU32::C
        ))
    );
    assert_eq!(
        MixedEnum::from_fields(b"6,\"abc\""),
        Some(MixedEnum::SingleSimpleTupleLifetime(b"abc".to_vec()))
    );
}

#[test]
fn test_length_serialize() {
    assert_eq!(
        LengthTester {
            x: 8,
            y: b"SomeString".to_vec(),
            z: 2,
            w: b"whatup".to_vec(),
            a: SimpleEnum::A,
            b: SimpleEnumU32::A,
            c: SimpleEnumU32::B,
        }
        .as_bytes(),
        b"AT+CFUN=8,\"SomeString\",2,\"whatup\",0,0,1\r\n".to_vec()
    );
}
