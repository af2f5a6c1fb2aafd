use ggpk_explorer::bundles::bundle::Bundle;

fn stored(source: &[u8], target: &mut [u8]) -> i32 {
    let n = source.len().min(target.len());
    target[..n].copy_from_slice(&source[..n]);
    n as i32
}

#[test]
fn test_ooz_link() {
    println!("Testing ooz linking...");
    let bundle = Bundle {
        uncompressed_size: 10,
        total_payload_size: 10,
        head_payload_size: 0,
        first_file_encode: 0,
        uncompressed_size2: 10,
        total_payload_size2: 10,
        block_count: 1,
        chunk_size: 262_144,
        block_sizes: vec![10],
        data_offset: 0,
    };
    let source = [7u8; 10];
    let mut target = vec![0u8; 10];
    let task = bundle.decompress()[0];
    let returned = stored(&source, &mut target[task.target_offset..task.target_offset + task.target_len]);
    assert!(task.check_result(returned).is_ok());
}
