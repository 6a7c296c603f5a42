use tari_rpc_core::pow::{PowAlgorithm, ProofOfWork};

#[test]
fn display() {
    let pow = ProofOfWork::default();
    assert_eq!(&pow.to_display_string(), "Mining algorithm: Sha3\nPow data: \n");
}

#[test]
fn to_bytes() {
    let pow = ProofOfWork {
        pow_algo: PowAlgorithm::Sha3,
        ..Default::default()
    };
    assert_eq!(pow.to_bytes(), vec![1]);
}

#[test]
fn display_shows_data_in_hex() {
    let pow = ProofOfWork {
        pow_algo: PowAlgorithm::Monero,
        pow_data: vec![0x00, 0xab, 0x1f],
    };
    assert_eq!(pow.to_display_string(), "Mining algorithm: Monero\nPow data: 00ab1f\n");
    assert_eq!(pow.to_bytes(), vec![0, 0x00, 0xab, 0x1f]);
}

#[test]
fn consensus_round_trip() {
    let pow = ProofOfWork {
        pow_algo: PowAlgorithm::Sha3,
        pow_data: vec![1, 2, 3],
    };
    let bytes = pow.consensus_encode();
    assert_eq!(bytes, vec![1, 3, 1, 2, 3]);
    let (back, used) = ProofOfWork::consensus_decode(&bytes).unwrap();
    assert_eq!(used, 5);
    assert_eq!(back.pow_algo, PowAlgorithm::Sha3);
    assert_eq!(back.pow_data, vec![1, 2, 3]);
    assert!(ProofOfWork::consensus_decode(&[2, 0]).is_err());
    assert!(ProofOfWork::consensus_decode(&[1, 4, 1]).is_err());
}

fn sample_header() -> tari_rpc_core::sha3_pow::BlockHeader {
    tari_rpc_core::sha3_pow::BlockHeader {
        version: 1,
        height: 2,
        prev_hash: vec![1, 2],
        timestamp: 3,
        input_mr: vec![],
        output_mr: vec![4],
        output_mmr_size: 5,
        witness_mr: vec![],
        kernel_mr: vec![6],
        kernel_mmr_size: 7,
        total_kernel_offset: vec![8],
        total_script_offset: vec![9],
        nonce: 10,
        pow: ProofOfWork::default(),
    }
}

#[test]
fn header_hash_input_layout() {
    let bytes = tari_rpc_core::sha3_pow::header_hash_input(&sample_header());
    assert_eq!(
        bytes,
        vec![
            1, 0, 2, 0, 0, 0, 0, 0, 0, 0, 1, 2, 3, 0, 0, 0, 0, 0, 0, 0, 4, 5, 0, 0, 0, 0, 0, 0, 0, 6, 7, 0, 0, 0, 0,
            0, 0, 0, 8, 9, 10, 0, 0, 0, 0, 0, 0, 0, 1
        ]
    );
}

#[test]
fn sha3_hash_of_header() {
    let hash = tari_rpc_core::sha3_pow::sha3_hash(&sample_header());
    let hex: String = hash.iter().map(|b| format!("{:02x}", b)).collect();
    assert_eq!(hex, "9f374b7c08b127e483b5cc2631dbc7f7ca30d8fbcbc4581386932d8177aab120");
}
