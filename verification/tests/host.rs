use halo2curves::ff::Field;
use halo2curves::group::prime::PrimeCurveAffine;
use halo2curves::group::Curve;
use near_halo2_verifier::bn256::{Fq, Fq2, Fr, G1Affine, G2Affine};
use near_halo2_verifier::error::Error;
use near_halo2_verifier::kzg_decider::{decide, decide_all, KzgAccumulator, KzgDecidingKey};
use near_halo2_verifier::loader::{NearLoadedFr, NearLoadedG1, NearLoader};
use near_halo2_verifier::multi_miller_loop::NearBn256;
use near_halo2_verifier::util::{
    alt_bn128_g1_multiexp, alt_bn128_pairing_check, decode_g1, encode_g1, encode_g2,
    to_host_order,
};

type OutG1 = halo2curves::bn256::G1Affine;
type OutG2 = halo2curves::bn256::G2Affine;
type OutFr = halo2curves::bn256::Fr;

fn fq_of(f: &halo2curves::bn256::Fq) -> Fq {
    Fq::from_bytes(&f.to_bytes()).unwrap()
}

fn fr_of(f: &OutFr) -> Fr {
    Fr::from_bytes(&f.to_bytes()).unwrap()
}

fn g1_of(p: &OutG1) -> G1Affine {
    G1Affine::from_xy(fq_of(&p.x), fq_of(&p.y)).unwrap()
}

fn g2_of(p: &OutG2) -> G2Affine {
    let x = Fq2 { c0: fq_of(&p.x.c0()), c1: fq_of(&p.x.c1()) };
    let y = Fq2 { c0: fq_of(&p.y.c0()), c1: fq_of(&p.y.c1()) };
    G2Affine::from_xy(x, y).unwrap()
}

fn g1_times(k: u64) -> OutG1 {
    (OutG1::generator() * OutFr::from(k)).to_affine()
}

fn deciding_key(secret: u64) -> KzgDecidingKey {
    let g2 = OutG2::generator();
    let s_g2 = (g2 * OutFr::from(secret)).to_affine();
    KzgDecidingKey::new(g1_of(&OutG1::generator()), g2_of(&g2), g2_of(&s_g2)).unwrap()
}

fn genuine(secret: u64, k: u64) -> KzgAccumulator {
    let rhs = g1_times(k);
    let lhs = (rhs * OutFr::from(secret)).to_affine();
    KzgAccumulator::new(NearLoadedG1(g1_of(&lhs)), NearLoadedG1(g1_of(&rhs)))
}

fn corrupted(secret: u64, k: u64) -> KzgAccumulator {
    let rhs = g1_times(k);
    let lhs = ((rhs * OutFr::from(secret)) + OutG1::generator()).to_affine();
    KzgAccumulator::new(NearLoadedG1(g1_of(&lhs)), NearLoadedG1(g1_of(&rhs)))
}

fn fq_at(data: &[u8], at: usize) -> Fq {
    let mut bytes = [0u8; 32];
    bytes.copy_from_slice(&data[at..at + 32]);
    Fq::from_bytes(&bytes).unwrap()
}

fn g1_at(data: &[u8], at: usize) -> G1Affine {
    G1Affine::from_xy(fq_at(data, at), fq_at(data, at + 32)).unwrap()
}

fn g2_at(data: &[u8], at: usize) -> G2Affine {
    let x = Fq2 { c0: fq_at(data, at), c1: fq_at(data, at + 32) };
    let y = Fq2 { c0: fq_at(data, at + 64), c1: fq_at(data, at + 96) };
    G2Affine::from_xy(x, y).unwrap()
}

fn terms_of(data: &[u8]) -> Vec<(G1Affine, G2Affine)> {
    (0..data.len() / 192).map(|k| (g1_at(data, 192 * k), g2_at(data, 192 * k + 64))).collect()
}

// Recorded inputs and answers of the host, in the order in which the host
// reads and writes: every word least significant byte first.
const MULTIEXP_INPUT: [u8; 96] = [
    16, 238, 91, 161, 241, 22, 172, 158, 138, 252, 202, 212, 136, 37, 110, 231,
    118, 220, 8, 45, 14, 153, 125, 217, 227, 87, 238, 238, 31, 138, 226, 8,
    238, 185, 12, 155, 93, 126, 144, 248, 200, 177, 46, 245, 40, 162, 169, 80,
    150, 211, 157, 13, 10, 36, 44, 232, 173, 32, 32, 115, 123, 2, 9, 47,
    190, 148, 181, 91, 69, 6, 83, 40, 65, 222, 251, 70, 81, 73, 60, 142,
    130, 217, 176, 20, 69, 75, 40, 167, 41, 180, 244, 5, 142, 215, 135, 35,
];

const MULTIEXP_OUTPUT: [u8; 64] = [
    150, 94, 159, 52, 239, 226, 181, 150, 77, 86, 90, 186, 102, 219, 243, 204,
    36, 128, 164, 209, 106, 6, 62, 124, 235, 104, 223, 195, 30, 204, 42, 20,
    13, 158, 14, 197, 133, 73, 43, 171, 28, 68, 82, 116, 244, 164, 36, 251,
    244, 8, 234, 40, 118, 55, 216, 187, 242, 39, 213, 160, 192, 184, 28, 23,
];

const PAIRING_HOLDS: [u8; 384] = [
    117, 10, 217, 99, 113, 78, 234, 67, 183, 90, 26, 58, 200, 86, 195, 123,
    42, 184, 213, 88, 224, 248, 18, 200, 108, 6, 181, 6, 28, 17, 99, 7,
    36, 134, 53, 115, 192, 180, 3, 113, 76, 227, 174, 147, 50, 174, 79, 74,
    151, 195, 172, 10, 211, 210, 26, 92, 117, 246, 65, 237, 168, 104, 16, 4,
    1, 26, 3, 219, 6, 13, 193, 115, 77, 230, 27, 13, 242, 214, 195, 9,
    213, 99, 135, 12, 160, 202, 114, 135, 175, 42, 116, 172, 79, 234, 26, 41,
    212, 111, 192, 129, 124, 112, 57, 107, 38, 244, 230, 222, 240, 36, 65, 238,
    133, 188, 19, 43, 148, 59, 205, 40, 161, 179, 173, 228, 88, 169, 231, 29,
    17, 67, 163, 51, 165, 187, 101, 44, 250, 24, 68, 101, 92, 128, 203, 190,
    51, 85, 9, 43, 58, 136, 68, 180, 92, 110, 185, 168, 107, 129, 45, 30,
    187, 22, 100, 17, 75, 93, 216, 125, 23, 212, 11, 186, 199, 204, 1, 140,
    133, 11, 82, 44, 65, 222, 20, 26, 48, 26, 132, 220, 25, 213, 93, 25,
    79, 176, 4, 149, 151, 243, 11, 131, 253, 233, 121, 38, 222, 15, 118, 117,
    200, 214, 175, 233, 130, 181, 193, 167, 255, 153, 169, 240, 207, 235, 28, 31,
    83, 74, 69, 179, 6, 150, 72, 67, 74, 166, 130, 83, 82, 115, 123, 111,
    208, 221, 64, 43, 237, 213, 186, 235, 7, 56, 251, 179, 95, 233, 159, 23,
    109, 173, 85, 103, 8, 165, 235, 226, 218, 79, 72, 120, 172, 251, 20, 83,
    121, 201, 140, 98, 170, 246, 121, 218, 19, 115, 42, 135, 60, 239, 30, 32,
    49, 170, 171, 204, 196, 197, 160, 158, 168, 47, 23, 110, 139, 123, 222, 222,
    245, 98, 125, 208, 70, 39, 110, 186, 146, 254, 66, 185, 118, 3, 78, 32,
    47, 179, 197, 93, 79, 240, 204, 78, 236, 133, 213, 173, 117, 94, 63, 154,
    68, 89, 236, 138, 0, 247, 242, 212, 245, 33, 249, 0, 35, 246, 233, 0,
    124, 86, 198, 162, 201, 54, 19, 26, 196, 75, 254, 71, 70, 238, 51, 2,
    23, 185, 152, 139, 134, 65, 107, 129, 114, 244, 47, 251, 240, 80, 193, 23,
];

const PAIRING_FAILS: [u8; 384] = [
    117, 10, 217, 99, 113, 78, 234, 67, 183, 90, 26, 58, 200, 86, 195, 123,
    42, 184, 213, 88, 224, 248, 18, 200, 108, 6, 181, 6, 28, 17, 99, 7,
    36, 134, 53, 115, 192, 180, 3, 113, 76, 227, 174, 147, 50, 174, 79, 74,
    151, 195, 172, 10, 211, 210, 26, 92, 117, 246, 65, 237, 168, 104, 16, 4,
    1, 26, 3, 219, 6, 13, 193, 115, 77, 230, 27, 13, 242, 214, 195, 9,
    213, 99, 135, 12, 160, 202, 114, 135, 175, 42, 116, 172, 79, 234, 26, 41,
    212, 111, 192, 129, 124, 112, 57, 107, 38, 244, 230, 222, 240, 36, 65, 238,
    133, 188, 19, 43, 148, 59, 205, 40, 161, 179, 173, 228, 88, 169, 231, 29,
    17, 67, 163, 51, 165, 187, 101, 44, 250, 24, 68, 101, 92, 128, 203, 190,
    51, 85, 9, 43, 58, 136, 68, 180, 92, 110, 185, 168, 107, 129, 45, 30,
    187, 22, 100, 17, 75, 93, 216, 125, 23, 212, 11, 186, 199, 204, 1, 140,
    133, 11, 82, 44, 65, 222, 20, 26, 48, 26, 132, 220, 25, 213, 93, 25,
    117, 10, 217, 99, 113, 78, 234, 67, 183, 90, 26, 58, 200, 86, 195, 123,
    42, 184, 213, 88, 224, 248, 18, 200, 108, 6, 181, 6, 28, 17, 99, 7,
    36, 134, 53, 115, 192, 180, 3, 113, 76, 227, 174, 147, 50, 174, 79, 74,
    151, 195, 172, 10, 211, 210, 26, 92, 117, 246, 65, 237, 168, 104, 16, 4,
    109, 173, 85, 103, 8, 165, 235, 226, 218, 79, 72, 120, 172, 251, 20, 83,
    121, 201, 140, 98, 170, 246, 121, 218, 19, 115, 42, 135, 60, 239, 30, 32,
    49, 170, 171, 204, 196, 197, 160, 158, 168, 47, 23, 110, 139, 123, 222, 222,
    245, 98, 125, 208, 70, 39, 110, 186, 146, 254, 66, 185, 118, 3, 78, 32,
    47, 179, 197, 93, 79, 240, 204, 78, 236, 133, 213, 173, 117, 94, 63, 154,
    68, 89, 236, 138, 0, 247, 242, 212, 245, 33, 249, 0, 35, 246, 233, 0,
    124, 86, 198, 162, 201, 54, 19, 26, 196, 75, 254, 71, 70, 238, 51, 2,
    23, 185, 152, 139, 134, 65, 107, 129, 114, 244, 47, 251, 240, 80, 193, 23,
];

const EQUATION: &str = "e(lhs, g2)·e(rhs, -s_g2) == O";

fn be(bytes: [u8; 32]) -> [u8; 32] {
    let mut bytes = bytes;
    bytes.reverse();
    bytes
}

#[test]
fn a_point_is_laid_out_big_endian_x_then_y() {
    let g = g1_of(&OutG1::generator());
    let mut buf = vec![0xaa];
    encode_g1(&mut buf, &g);
    assert_eq!(buf.len(), 65);
    let mut expected = vec![0xaa];
    expected.extend_from_slice(&[0; 31]);
    expected.push(1);
    expected.extend_from_slice(&[0; 31]);
    expected.push(2);
    assert_eq!(buf, expected);
    let p = g1_times(77);
    let mut buf = Vec::new();
    encode_g1(&mut buf, &g1_of(&p));
    assert_eq!(&buf[..32], &be(p.x.to_bytes())[..]);
    assert_eq!(&buf[32..], &be(p.y.to_bytes())[..]);
}

#[test]
fn a_point_of_the_second_group_is_laid_out_real_part_first() {
    let g = OutG2::generator();
    let mut buf = Vec::new();
    encode_g2(&mut buf, &g2_of(&g));
    assert_eq!(buf.len(), 128);
    assert_eq!(&buf[0..32], &be(g.x.c0().to_bytes())[..]);
    assert_eq!(&buf[32..64], &be(g.x.c1().to_bytes())[..]);
    assert_eq!(&buf[64..96], &be(g.y.c0().to_bytes())[..]);
    assert_eq!(&buf[96..128], &be(g.y.c1().to_bytes())[..]);
    // The most significant byte of each part of the generator is not zero,
    // the top bits of a reduced element are.
    for word in 0..4 {
        assert!(buf[32 * word] < 0x31);
    }
}

#[test]
fn the_host_order_turns_every_word_round() {
    let data: Vec<u8> = (0..96).collect();
    let turned = to_host_order(&data);
    assert_eq!(turned.len(), 96);
    for word in 0..3 {
        for j in 0..32 {
            assert_eq!(turned[32 * word + j], (32 * word + 31 - j) as u8);
        }
    }
    assert_eq!(to_host_order(&turned), data);
}

#[test]
fn the_host_order_leaves_a_broken_word_as_it_is() {
    assert_eq!(to_host_order(&Vec::new()), Vec::<u8>::new());
    let short: Vec<u8> = (0..31).collect();
    assert_eq!(to_host_order(&short), short);
    let data: Vec<u8> = (0..40).collect();
    let turned = to_host_order(&data);
    let mut expected: Vec<u8> = (0..32).rev().collect();
    expected.extend(32..40);
    assert_eq!(turned, expected);
    assert_eq!(to_host_order(&turned), data);
}

#[test]
fn the_host_reads_the_layout_turned_round() {
    let p = g1_times(5);
    let mut buf = Vec::new();
    encode_g1(&mut buf, &g1_of(&p));
    let turned = to_host_order(&buf);
    assert_eq!(&turned[..32], &p.x.to_bytes()[..]);
    assert_eq!(&turned[32..], &p.y.to_bytes()[..]);
}

#[test]
fn decoding_gives_back_the_encoded_point() {
    for k in [1u64, 2, 77] {
        let p = g1_of(&g1_times(k));
        let mut buf = Vec::new();
        encode_g1(&mut buf, &p);
        assert_eq!(decode_g1(&buf), Ok(p));
        let mut again = Vec::new();
        encode_g1(&mut again, &decode_g1(&buf).unwrap());
        assert_eq!(again, buf);
    }
    assert_eq!(decode_g1(&vec![0u8; 64]), Ok(G1Affine::identity()));
}

#[test]
fn decoding_reads_the_first_64_bytes() {
    let p = g1_of(&g1_times(9));
    let mut buf = Vec::new();
    encode_g1(&mut buf, &p);
    buf.extend_from_slice(&[0xff; 7]);
    assert_eq!(decode_g1(&buf), Ok(p));
}

#[test]
fn decoding_rejects_what_is_no_point() {
    let refused = Err(Error::DecodeError("Invalid elliptic curve point encoding".to_string()));
    let mut buf = Vec::new();
    encode_g1(&mut buf, &g1_of(&OutG1::generator()));
    let mut short = buf.clone();
    short.pop();
    assert_eq!(decode_g1(&short), refused);
    assert_eq!(decode_g1(&Vec::new()), refused);
    let mut off_curve = buf.clone();
    off_curve[63] = 3;
    assert_eq!(decode_g1(&off_curve), refused);
    // The generator written least significant byte first is no point.
    assert_eq!(decode_g1(&to_host_order(&buf)), refused);
    let mut unreduced = buf.clone();
    for b in unreduced[..32].iter_mut() {
        *b = 0xff;
    }
    assert_eq!(decode_g1(&unreduced), refused);
    let mut unreduced_y = buf.clone();
    for b in unreduced_y[32..].iter_mut() {
        *b = 0xff;
    }
    assert_eq!(decode_g1(&unreduced_y), refused);
}

#[test]
fn multiexp_of_one_pair_is_the_scalar_multiple() {
    let p = g1_times(5);
    let s = OutFr::from(0xdead_beefu64).square();
    let expected = (p * s).to_affine();
    let got = alt_bn128_g1_multiexp(&[(g1_of(&p), fr_of(&s))]).unwrap();
    assert_eq!(got, g1_of(&expected));
}

#[test]
fn multiexp_by_one_gives_the_point_back() {
    let p = g1_times(11);
    let got = alt_bn128_g1_multiexp(&[(g1_of(&p), Fr::one())]).unwrap();
    assert_eq!(got, g1_of(&p));
}

#[test]
fn multiexp_of_opposite_terms_is_the_identity() {
    let p = g1_times(9);
    let s = OutFr::from(31337u64);
    let pairs = [(g1_of(&p), fr_of(&s)), (g1_of(&p), fr_of(&-s))];
    assert_eq!(alt_bn128_g1_multiexp(&pairs).unwrap(), G1Affine::identity());
}

#[test]
fn multiexp_of_nothing_is_the_identity() {
    assert_eq!(alt_bn128_g1_multiexp(&[]).unwrap(), G1Affine::identity());
}

#[test]
fn multiexp_of_several_pairs_is_the_sum() {
    let pairs = [(g1_times(2), OutFr::from(3u64)), (g1_times(5), OutFr::from(7u64)), (
        g1_times(11),
        -OutFr::from(13u64),
    )];
    let expected = pairs.iter().fold(halo2curves::bn256::G1::default(), |acc, (p, s)| acc + p * s);
    let inside: Vec<(G1Affine, Fr)> = pairs.iter().map(|(p, s)| (g1_of(p), fr_of(s))).collect();
    assert_eq!(alt_bn128_g1_multiexp(&inside).unwrap(), g1_of(&expected.to_affine()));
    // 2·3 + 5·7 - 11·13 = -102
    assert_eq!(expected.to_affine(), (OutG1::generator() * -OutFr::from(102u64)).to_affine());
}

#[test]
fn multiexp_with_the_identity_and_zero_scalars() {
    let p = g1_times(4);
    let pairs = [(G1Affine::identity(), fr_of(&OutFr::from(5u64))), (g1_of(&p), Fr::zero()), (
        g1_of(&p),
        fr_of(&OutFr::from(2u64)),
    )];
    assert_eq!(alt_bn128_g1_multiexp(&pairs).unwrap(), g1_of(&g1_times(8)));
}

#[test]
fn the_loader_sends_pairs_as_point_then_scalar() {
    let p = NearLoadedG1(g1_of(&g1_times(3)));
    let q = NearLoadedG1(g1_of(&g1_times(10)));
    let a = NearLoadedFr(fr_of(&OutFr::from(4u64)));
    let b = NearLoadedFr(fr_of(&OutFr::from(6u64)));
    let got = NearLoader::multi_scalar_multiplication(&[(&a, &p), (&b, &q)]).unwrap();
    assert_eq!(got, NearLoadedG1(g1_of(&g1_times(72))));
}

#[test]
fn pairing_check_of_nothing_holds() {
    assert!(alt_bn128_pairing_check(Vec::new()));
}

#[test]
fn pairing_check_of_opposite_terms_holds() {
    let p = g1_times(6);
    let g2 = OutG2::generator();
    assert!(alt_bn128_pairing_check(vec![(g1_of(&p), g2_of(&g2)), (g1_of(&-p), g2_of(&g2))]));
    assert!(alt_bn128_pairing_check(vec![(g1_of(&p), g2_of(&g2)), (g1_of(&p), g2_of(&-g2))]));
}

#[test]
fn pairing_check_of_one_term_fails() {
    let g2 = OutG2::generator();
    assert!(!alt_bn128_pairing_check(vec![(g1_of(&g1_times(6)), g2_of(&g2))]));
}

#[test]
fn pairing_check_is_bilinear() {
    let g2 = OutG2::generator();
    let g2_7 = (g2 * OutFr::from(7u64)).to_affine();
    // e(21·g1, g2) · e(-3·g1, 7·g2) = 1
    assert!(alt_bn128_pairing_check(vec![(g1_of(&g1_times(21)), g2_of(&g2)), (
        g1_of(&-g1_times(3)),
        g2_of(&g2_7),
    )]));
    assert!(!alt_bn128_pairing_check(vec![(g1_of(&g1_times(22)), g2_of(&g2)), (
        g1_of(&-g1_times(3)),
        g2_of(&g2_7),
    )]));
}

#[test]
fn the_deciding_key_keeps_its_points() {
    let g2 = OutG2::generator();
    let s_g2 = (g2 * OutFr::from(99u64)).to_affine();
    let dk = deciding_key(99);
    assert_eq!(dk.g1(), g1_of(&OutG1::generator()));
    assert_eq!(dk.g2(), g2_of(&g2));
    assert_eq!(dk.s_g2(), g2_of(&s_g2));
}

#[test]
fn a_genuine_accumulator_is_accepted() {
    let dk = deciding_key(0x5ec2e7);
    assert_eq!(decide(&dk, genuine(0x5ec2e7, 1)), Ok(()));
    assert_eq!(decide(&dk, genuine(0x5ec2e7, 424242)), Ok(()));
}

#[test]
fn a_corrupted_accumulator_is_rejected() {
    let dk = deciding_key(0x5ec2e7);
    assert_eq!(
        decide(&dk, corrupted(0x5ec2e7, 424242)),
        Err(Error::AssertionFailure(EQUATION.to_string()))
    );
}

#[test]
fn an_accumulator_for_another_secret_is_rejected() {
    let dk = deciding_key(1234);
    assert_eq!(
        decide(&dk, genuine(1235, 5)),
        Err(Error::AssertionFailure(EQUATION.to_string()))
    );
}

#[test]
fn the_sides_of_an_accumulator_are_not_interchangeable() {
    let dk = deciding_key(77);
    let a = genuine(77, 3);
    assert_eq!(
        decide(&dk, KzgAccumulator::new(a.rhs, a.lhs)),
        Err(Error::AssertionFailure(EQUATION.to_string()))
    );
}

#[test]
fn the_pair_of_identities_is_accepted() {
    let dk = deciding_key(77);
    let o = NearLoadedG1(G1Affine::identity());
    assert_eq!(decide(&dk, KzgAccumulator::new(o, o)), Ok(()));
}

#[test]
fn decide_all_accepts_when_all_pass() {
    let dk = deciding_key(31);
    assert_eq!(decide_all(&dk, vec![genuine(31, 1), genuine(31, 2), genuine(31, 3)]), Ok(()));
    assert_eq!(decide_all(&dk, Vec::new()), Ok(()));
}

#[test]
fn decide_all_rejects_when_any_fails() {
    let dk = deciding_key(31);
    let failure = Err(Error::AssertionFailure(EQUATION.to_string()));
    assert_eq!(decide_all(&dk, vec![corrupted(31, 1), genuine(31, 2)]), failure);
    assert_eq!(decide_all(&dk, vec![genuine(31, 1), corrupted(31, 2)]), failure);
    assert_eq!(decide_all(&dk, vec![genuine(31, 1), genuine(31, 2), corrupted(31, 3)]), failure);
    assert_eq!(decide_all(&dk, vec![corrupted(31, 9)]), failure);
}

#[test]
fn the_loader_loads_constants_as_they_are() {
    let loader = NearLoader;
    let s = fr_of(&OutFr::from(17u64));
    let p = g1_of(&g1_times(17));
    assert_eq!(loader.load_const(&s), NearLoadedFr(s));
    assert_eq!(loader.ec_point_load_const(&p), NearLoadedG1(p));
    assert_eq!(NearLoadedFr(s).loader(), NearLoader);
    assert_eq!(NearLoadedG1(p).loader(), NearLoader);
}

#[test]
fn assert_eq_names_the_failed_check() {
    let loader = NearLoader;
    let a = NearLoadedFr(fr_of(&OutFr::from(1u64)));
    let b = NearLoadedFr(fr_of(&OutFr::from(2u64)));
    assert_eq!(loader.assert_eq("same scalar", &a, &a), Ok(()));
    assert_eq!(
        loader.assert_eq("quotient identity", &a, &b),
        Err(Error::AssertionFailure("quotient identity".to_string()))
    );
    assert_eq!(loader.assert_eq("", &a, &b), Err(Error::AssertionFailure(String::new())));
}

#[test]
fn ec_point_assert_eq_names_the_failed_check() {
    let loader = NearLoader;
    let p = NearLoadedG1(g1_of(&g1_times(1)));
    let q = NearLoadedG1(g1_of(&g1_times(2)));
    assert_eq!(loader.ec_point_assert_eq("same point", &p, &p), Ok(()));
    assert_eq!(
        loader.ec_point_assert_eq("commitment", &p, &q),
        Err(Error::AssertionFailure("commitment".to_string()))
    );
}

#[test]
fn loaded_scalars_compute_in_the_field() {
    let two = NearLoadedFr(fr_of(&OutFr::from(2u64)));
    let three = NearLoadedFr(fr_of(&OutFr::from(3u64)));
    let six = NearLoadedFr(fr_of(&OutFr::from(6u64)));
    assert_eq!(two.add(&three), NearLoadedFr(fr_of(&OutFr::from(5u64))));
    assert_eq!(two.sub(&three), NearLoadedFr(fr_of(&-OutFr::from(1u64))));
    assert_eq!(two.mul(&three), six);
    assert_eq!(two.neg(), NearLoadedFr(fr_of(&-OutFr::from(2u64))));
    assert_eq!(two.invert().unwrap().mul(&six), three);
    assert_eq!(NearLoadedFr(Fr::zero()).invert(), None);
    let mut x = two;
    x.add_assign(&three);
    assert_eq!(x, NearLoadedFr(fr_of(&OutFr::from(5u64))));
    x.mul_assign(&three);
    assert_eq!(x, NearLoadedFr(fr_of(&OutFr::from(15u64))));
    x.sub_assign(&six);
    assert_eq!(x, NearLoadedFr(fr_of(&OutFr::from(9u64))));
}

#[test]
fn errors_carry_their_text() {
    assert_eq!(Error::decode("a").message(), "a");
    assert_eq!(Error::assertion("b").message(), "b");
    assert_eq!(Error::transcript("c").message(), "c");
    assert_eq!(Error::decode("a"), Error::DecodeError("a".to_string()));
    assert_eq!(Error::assertion("b"), Error::AssertionFailure("b".to_string()));
    assert_eq!(Error::transcript("c"), Error::TranscriptError("c".to_string()));
    assert_ne!(Error::decode("a"), Error::transcript("a"));
}

#[test]
fn the_engine_is_a_marker() {
    assert_eq!(NearBn256, NearBn256.clone());
}

#[test]
fn multiexp_of_a_recorded_input() {
    let mut scalar = [0u8; 32];
    scalar.copy_from_slice(&MULTIEXP_INPUT[64..]);
    let pairs = [(g1_at(&MULTIEXP_INPUT, 0), Fr::from_bytes(&scalar).unwrap())];
    let mut laid_out = Vec::new();
    encode_g1(&mut laid_out, &pairs[0].0);
    laid_out.extend_from_slice(&be(pairs[0].1.to_bytes()));
    assert_eq!(to_host_order(&laid_out), MULTIEXP_INPUT.to_vec());
    let sum = alt_bn128_g1_multiexp(&pairs).unwrap();
    let mut out = Vec::new();
    encode_g1(&mut out, &sum);
    assert_eq!(to_host_order(&out), MULTIEXP_OUTPUT.to_vec());
    assert_eq!(decode_g1(&to_host_order(&MULTIEXP_OUTPUT.to_vec())), Ok(sum));
}

#[test]
fn pairing_check_of_recorded_inputs() {
    let holds = terms_of(&PAIRING_HOLDS);
    assert_eq!(holds.len(), 2);
    let mut laid_out = Vec::new();
    for (p, q) in holds.iter() {
        encode_g1(&mut laid_out, p);
        encode_g2(&mut laid_out, q);
    }
    assert_eq!(to_host_order(&laid_out), PAIRING_HOLDS.to_vec());
    assert!(alt_bn128_pairing_check(holds));
    assert!(!alt_bn128_pairing_check(terms_of(&PAIRING_FAILS)));
}

#[test]
fn pairing_with_the_identity_of_the_second_group_holds() {
    let zero = Fq2 { c0: Fq::zero(), c1: Fq::zero() };
    let o = G2Affine::from_xy(zero, zero).unwrap();
    assert!(alt_bn128_pairing_check(vec![(g1_of(&g1_times(3)), o)]));
    assert!(alt_bn128_pairing_check(vec![(G1Affine::identity(), g2_of(&OutG2::generator()))]));
}
