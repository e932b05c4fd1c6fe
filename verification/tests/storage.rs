use rocm_backend::native::zero_shadow;
use rocm_backend::error::BackendError;
use rocm_backend::storage::{
    cpu_storage_as_bytes, cpu_storage_write_bytes, ByteOrder, CpuStorage, DType,
};

fn samples() -> Vec<CpuStorage> {
    vec![
        CpuStorage::U8(vec![0, 1, 255]),
        CpuStorage::U32(vec![0x01020304, u32::MAX, 0]),
        CpuStorage::I16(vec![-2, 1, i16::MIN, i16::MAX]),
        CpuStorage::I32(vec![-1, 7, i32::MIN]),
        CpuStorage::I64(vec![-3, i64::MAX, i64::MIN, 0]),
        CpuStorage::BF16(vec![half::bf16::from_f32(1.5).to_bits(), 0x8000]),
        CpuStorage::F16(vec![0x3c00, 0xffff]),
        CpuStorage::F32(vec![1.0f32.to_bits(), (-0.0f32).to_bits()]),
        CpuStorage::F64(vec![1.0f64.to_bits(), f64::NAN.to_bits()]),
        CpuStorage::F8E4M3(vec![0x38, 0]),
        CpuStorage::F6E2M3(vec![1, 2, 3]),
        CpuStorage::F6E3M2(vec![4]),
        CpuStorage::F4(vec![]),
        CpuStorage::F8E8M0(vec![127]),
    ]
}

#[test]
fn bytes_are_the_memory_of_the_elements() {
    let storage = CpuStorage::F32(vec![1.0f32.to_bits(), (-2.5f32).to_bits()]);
    let mut little = 1.0f32.to_le_bytes().to_vec();
    little.extend((-2.5f32).to_le_bytes());
    assert_eq!(cpu_storage_as_bytes(&storage, ByteOrder::LittleEndian), little);
    let mut big = 1.0f32.to_be_bytes().to_vec();
    big.extend((-2.5f32).to_be_bytes());
    assert_eq!(cpu_storage_as_bytes(&storage, ByteOrder::BigEndian), big);
    let storage = CpuStorage::I16(vec![-2, 1]);
    assert_eq!(cpu_storage_as_bytes(&storage, ByteOrder::LittleEndian), vec![254, 255, 1, 0]);
    assert_eq!(cpu_storage_as_bytes(&storage, ByteOrder::BigEndian), vec![255, 254, 0, 1]);
    let storage = CpuStorage::I64(vec![-3]);
    assert_eq!(
        cpu_storage_as_bytes(&storage, ByteOrder::LittleEndian),
        (-3i64).to_le_bytes().to_vec()
    );
}

#[test]
fn bytes_round_trip_for_every_type() {
    for order in [ByteOrder::LittleEndian, ByteOrder::BigEndian] {
        for storage in samples() {
            let bytes = cpu_storage_as_bytes(&storage, order);
            assert_eq!(bytes.len(), storage.len() * storage.dtype().element_size());
            let mut copy = storage.clone();
            let blank = vec![0u8; bytes.len()];
            cpu_storage_write_bytes(&mut copy, order, &blank);
            assert_eq!(cpu_storage_as_bytes(&copy, order), blank);
            cpu_storage_write_bytes(&mut copy, order, &bytes);
            assert_eq!(format!("{copy:?}"), format!("{storage:?}"));
        }
    }
}

#[test]
fn types_have_their_names_and_widths() {
    let names: Vec<&str> = samples().iter().map(|s| s.dtype().name()).collect();
    assert_eq!(
        names,
        vec![
            "U8", "U32", "I16", "I32", "I64", "BF16", "F16", "F32", "F64", "F8E4M3", "F6E2M3",
            "F6E3M2", "F4", "F8E8M0"
        ]
    );
    let widths: Vec<usize> = samples().iter().map(|s| s.dtype().element_size()).collect();
    assert_eq!(widths, vec![1, 4, 2, 4, 8, 2, 2, 4, 8, 1, 1, 1, 1, 1]);
}

#[test]
fn zeros_in_the_types_of_products() {
    assert!(matches!(
        zero_shadow(DType::BF16, 3),
        Ok(CpuStorage::BF16(v)) if v == vec![half::bf16::ZERO.to_bits(); 3] && v == vec![0; 3]
    ));
    assert!(matches!(zero_shadow(DType::F16, 2), Ok(CpuStorage::F16(v)) if v == vec![0; 2]));
    assert!(matches!(zero_shadow(DType::F32, 0), Ok(CpuStorage::F32(v)) if v.is_empty()));
    assert!(matches!(zero_shadow(DType::F64, 1), Ok(CpuStorage::F64(v)) if v == vec![0]));
    match zero_shadow(DType::U8, 1) {
        Err(BackendError::Msg(text)) => {
            assert_eq!(text, "unsupported native ROCm matmul dtype U8")
        }
        other => panic!("unexpected {other:?}"),
    }
}
