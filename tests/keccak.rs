use tiny_keccak::keccak::{bits_to_rate, Keccak};
use tiny_keccak::keccakf::keccakf;
use tiny_keccak::sponge::{Buffer, KeccakState, Mode};

fn hex(bytes: &[u8]) -> String {
    let mut s = String::new();
    for b in bytes {
        s.push_str(&format!("{:02x}", b));
    }
    s
}

fn keccak_digest(mut k: Keccak, input: &[u8], len: usize) -> String {
    k.update(input);
    let mut out = vec![0u8; len];
    k.finalize(&mut out);
    hex(&out)
}

fn sponge_digest(rate: usize, delim: u8, input: &[u8], len: usize) -> Vec<u8> {
    let mut s = KeccakState::new(rate, delim);
    s.update(input);
    let mut out = vec![0u8; len];
    s.finalize(&mut out);
    out
}

#[test]
fn keccak224_empty() {
    assert_eq!(
        keccak_digest(Keccak::v224(), b"", 28),
        "f71837502ba8e10837bdd8d365adb85591895602fc552b48b7390abd"
    );
}

#[test]
fn keccak256_empty() {
    assert_eq!(
        keccak_digest(Keccak::v256(), b"", 32),
        "c5d2460186f7233c927e7db2dcc703c0e500b653ca82273b7bfad8045d85a470"
    );
}

#[test]
fn keccak384_empty() {
    assert_eq!(
        keccak_digest(Keccak::v384(), b"", 48),
        "2c23146a63a29acf99e73b88f8c24eaa7dc60aa771780ccc006afbfa8fe2479b2dd2b21362337441ac12b515911957ff"
    );
}

#[test]
fn keccak512_empty() {
    assert_eq!(
        keccak_digest(Keccak::v512(), b"", 64),
        "0eab42de4c3ceb9235fc91acffe746b29c29a8c366b7c60e4e67c466f36a4304c00fa9caf9d87976ba469bcbe06713b435f091ef2769fb160cdab33d3670680e"
    );
}

#[test]
fn keccak256_fox() {
    assert_eq!(
        keccak_digest(Keccak::v256(), b"The quick brown fox jumps over the lazy dog", 32),
        "4d741b6f1eb29cb2a9b9911c82f56fa8d73b04959d3d9d222895df6c0b28aa15"
    );
}

#[test]
fn keccak256_abc() {
    assert_eq!(
        keccak_digest(Keccak::v256(), b"abc", 32),
        "4e03657aea45a94fc7d47ba826c8d667c0d1e6e33a64a036ec44f58fa12d6c45"
    );
}

#[test]
fn sha3_256_empty() {
    assert_eq!(
        hex(&sponge_digest(136, 0x06, b"", 32)),
        "a7ffc6f8bf1ed76651c14756a061d662f580ff4de43b49fa82d80a4b80f8434a"
    );
}

#[test]
fn sha3_256_abc() {
    assert_eq!(
        hex(&sponge_digest(136, 0x06, b"abc", 32)),
        "3a985da74fe225b2045c172d6bd390bd855f086e3e9d525b46bfe24511431532"
    );
}

#[test]
fn sha3_256_fox() {
    assert_eq!(
        hex(&sponge_digest(136, 0x06, b"The quick brown fox jumps over the lazy dog", 32)),
        "69070dda01975c8c120c3aada1b282394e7f032fa9cf32f4cb2259a0897dfc04"
    );
}

#[test]
fn sha3_256_million_a() {
    let input = vec![b'a'; 1_000_000];
    assert_eq!(
        hex(&sponge_digest(136, 0x06, &input, 32)),
        "5c8875ae474a3634ba4fd55ec85bffd661f32aca75c6d699d0cdcb6c115891c1"
    );
}

#[test]
fn shake128_empty() {
    assert_eq!(
        hex(&sponge_digest(168, 0x1f, b"", 32)),
        "7f9c2ba4e88f827d616045507605853ed73b8093f6efbc88eb1a6eacfa66ef26"
    );
}

#[test]
fn shake256_empty() {
    assert_eq!(
        hex(&sponge_digest(136, 0x1f, b"", 32)),
        "46b9dd2b0ba88d13233b3feb743eeb243fcd52ea62b81b82b50c27646ed5762f"
    );
}

#[test]
fn split_update_matches_single_update() {
    let input: Vec<u8> = (0..500u32).map(|i| (i * 7 + 3) as u8).collect();
    let whole = keccak_digest(Keccak::v256(), &input, 32);
    for split in [0usize, 1, 135, 136, 137, 300, 500] {
        let mut k = Keccak::v256();
        k.update(&input[..split]);
        k.update(&[]);
        k.update(&input[split..]);
        let mut out = [0u8; 32];
        k.finalize(&mut out);
        assert_eq!(hex(&out), whole);
    }
}

#[test]
fn squeeze_prefix_is_consistent() {
    let long = sponge_digest(168, 0x1f, b"prefix", 500);
    for l in [0usize, 1, 32, 167, 168, 169, 336, 499] {
        assert_eq!(sponge_digest(168, 0x1f, b"prefix", l), long[..l].to_vec());
    }
}

#[test]
fn squeeze_in_two_calls_matches_one() {
    let long = sponge_digest(168, 0x1f, b"stream", 400);
    let mut s = KeccakState::new(168, 0x1f);
    s.update(b"stream");
    let mut first = vec![0u8; 100];
    s.squeeze(&mut first);
    let mut second = vec![0u8; 300];
    s.squeeze(&mut second);
    first.extend_from_slice(&second);
    assert_eq!(first, long);
}

#[test]
fn padding_at_last_byte_of_rate_window() {
    // 135 zero bytes leave the offset at 135 = rate - 1 for Keccak-256, so the
    // delimiter 0x01 and the final bit 0x80 meet in byte 135 (lane 16, top byte).
    let mut lanes = [0u64; 25];
    lanes[16] = 0x81u64 << 56;
    keccakf(&mut lanes);
    let mut expected = Vec::new();
    for lane in &lanes[..4] {
        expected.extend_from_slice(&lane.to_le_bytes());
    }
    let mut k = Keccak::v256();
    k.update(&[0u8; 135]);
    assert_eq!(k.state().offset(), 135);
    let mut out = [0u8; 32];
    k.finalize(&mut out);
    assert_eq!(out.to_vec(), expected);
}

#[test]
fn delimiters_separate_domains() {
    for input in [&b"a"[..], b"abc", &[0u8; 136][..], &[0xffu8; 300][..]] {
        let keccak = sponge_digest(136, 0x01, input, 32);
        let sha3 = sponge_digest(136, 0x06, input, 32);
        let shake = sponge_digest(136, 0x1f, input, 32);
        assert_ne!(keccak, sha3);
        assert_ne!(keccak, shake);
        assert_ne!(sha3, shake);
    }
}

#[test]
fn permutation_of_zero_state() {
    let mut lanes = [0u64; 25];
    keccakf(&mut lanes);
    assert_eq!(lanes[0], 0xF1258F7940E1DDE7);
    assert_eq!(lanes[1], 0x84D5CCF933C0478A);
}

#[test]
fn permutation_separates_sampled_states() {
    let mut seed: u64 = 0x9E3779B97F4A7C15;
    let mut outputs: Vec<[u64; 25]> = Vec::new();
    let mut inputs: Vec<[u64; 25]> = Vec::new();
    for _ in 0..64 {
        let mut a = [0u64; 25];
        for lane in a.iter_mut() {
            seed ^= seed << 13;
            seed ^= seed >> 7;
            seed ^= seed << 17;
            *lane = seed;
        }
        inputs.push(a);
        // a neighbour differing in one bit
        let mut b = a;
        b[(seed % 25) as usize] ^= 1 << (seed % 64);
        inputs.push(b);
    }
    for a in &inputs {
        let mut x = *a;
        keccakf(&mut x);
        outputs.push(x);
    }
    for i in 0..inputs.len() {
        for j in (i + 1)..inputs.len() {
            assert_ne!(inputs[i], inputs[j]);
            assert_ne!(outputs[i], outputs[j]);
        }
    }
}

#[test]
fn rates_of_security_levels() {
    assert_eq!(bits_to_rate(224), 144);
    assert_eq!(bits_to_rate(256), 136);
    assert_eq!(bits_to_rate(384), 104);
    assert_eq!(bits_to_rate(512), 72);
    assert_eq!(Keccak::v224().state().rate(), 144);
    assert_eq!(Keccak::v512().state().rate(), 72);
    assert_eq!(Keccak::new(128).state().rate(), 168);
}

#[test]
fn new_with_resumes_absorbing() {
    let mut a = Keccak::v256();
    a.update(b"hello");
    let st = a.state();
    let b = Keccak::new_with(st.buffer(), st.offset() as u8, st.rate() as u8, st.mode());
    assert_eq!(b.state().delim(), 0x01);
    assert_eq!(keccak_digest(a, b" world", 32), keccak_digest(b, b" world", 32));
    assert_eq!(
        keccak_digest(Keccak::v256(), b"hello world", 32),
        "47173285a8d7341e5e972fc677286384f802f8ef42a5ec5f03bbfa254cb01fad"
    );
}

#[test]
fn update_after_squeezing_permutes_first() {
    let mut lanes = [0u64; 25];
    lanes[3] = 0x0123456789abcdef;
    let mut s = KeccakState::new_with(Buffer(lanes), 10, 136, 0x01, Mode::Squeezing);
    s.update(b"");
    assert_eq!(s.mode(), Mode::Absorbing);
    assert_eq!(s.offset(), 0);
    let mut expected = lanes;
    keccakf(&mut expected);
    assert_eq!(s.buffer().0, expected);
}

#[test]
fn squeezing_state_is_not_padded_again() {
    let mut lanes = [0u64; 25];
    lanes[0] = 0x1122334455667788;
    let s = KeccakState::new_with(Buffer(lanes), 2, 136, 0x01, Mode::Squeezing);
    let mut out = [0u8; 3];
    s.finalize(&mut out);
    assert_eq!(out, [0x66, 0x55, 0x44]);
}
