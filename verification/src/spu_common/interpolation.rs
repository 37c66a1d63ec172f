//! Hardware four-tap Gaussian interpolation.

use vstd::prelude::*;

use crate::bits::lemma_shr_i32;
use crate::spu_common::fixed::clamp_i16;

verus! {

/// Four-tap coefficients for every eight-bit hardware phase.
///
/// The row of phase `p` holds samples `255 - p`, `511 - p`, `256 + p` and `p`
/// of a windowed-sinc kernel that is scaled so that each row sums to `0x7f80`
/// within rounding.
pub const GAUSSIAN_WEIGHTS: [[i16; 4]; 256] = [
    [4807, 22963, 4871, -1], [4744, 22962, 4935, -1],
    [4681, 22960, 5000, -1], [4619, 22957, 5065, -1],
    [4557, 22953, 5131, -1], [4495, 22948, 5197, -1],
    [4435, 22942, 5264, -1], [4374, 22935, 5332, -1],
    [4315, 22927, 5399, -1], [4255, 22918, 5468, -1],
    [4197, 22908, 5536, -1], [4138, 22897, 5606, -1],
    [4081, 22885, 5676, -1], [4023, 22872, 5746, -1],
    [3967, 22857, 5817, -1], [3910, 22842, 5888, -1],
    [3855, 22826, 5959, 0], [3799, 22809, 6032, 0],
    [3745, 22791, 6104, 0], [3691, 22772, 6177, 0],
    [3637, 22752, 6251, 0], [3584, 22731, 6325, 0],
    [3531, 22709, 6400, 0], [3479, 22686, 6475, 1],
    [3427, 22662, 6550, 1], [3376, 22637, 6626, 1],
    [3325, 22611, 6702, 1], [3275, 22584, 6779, 2],
    [3225, 22556, 6856, 2], [3176, 22527, 6934, 2],
    [3128, 22498, 7012, 3], [3079, 22467, 7091, 3],
    [3032, 22435, 7170, 3], [2985, 22402, 7249, 4],
    [2938, 22369, 7329, 4], [2892, 22334, 7409, 5],
    [2846, 22299, 7490, 5], [2801, 22262, 7571, 6],
    [2756, 22225, 7653, 7], [2712, 22187, 7735, 7],
    [2668, 22148, 7817, 8], [2624, 22107, 7900, 9],
    [2582, 22066, 7983, 9], [2539, 22025, 8066, 10],
    [2497, 21982, 8150, 11], [2456, 21938, 8234, 12],
    [2415, 21893, 8319, 13], [2374, 21848, 8404, 14],
    [2334, 21801, 8489, 15], [2295, 21754, 8575, 16],
    [2256, 21706, 8661, 17], [2217, 21657, 8748, 18],
    [2179, 21607, 8834, 19], [2141, 21556, 8922, 21],
    [2104, 21505, 9009, 22], [2067, 21452, 9097, 24],
    [2031, 21399, 9185, 25], [1995, 21345, 9273, 27],
    [1959, 21290, 9362, 28], [1924, 21235, 9451, 30],
    [1890, 21178, 9541, 32], [1856, 21121, 9630, 33],
    [1822, 21063, 9720, 35], [1789, 21004, 9811, 37],
    [1756, 20944, 9901, 39], [1723, 20884, 9992, 41],
    [1691, 20822, 10083, 44], [1660, 20760, 10174, 46],
    [1628, 20698, 10266, 48], [1598, 20634, 10358, 51],
    [1567, 20570, 10450, 53], [1537, 20505, 10542, 56],
    [1508, 20439, 10635, 58], [1479, 20373, 10727, 61],
    [1450, 20306, 10820, 64], [1422, 20238, 10913, 67],
    [1394, 20169, 11007, 70], [1366, 20100, 11100, 73],
    [1339, 20030, 11194, 77], [1312, 19959, 11288, 80],
    [1286, 19888, 11382, 84], [1260, 19816, 11476, 87],
    [1234, 19744, 11571, 91], [1209, 19671, 11665, 95],
    [1184, 19597, 11760, 99], [1160, 19522, 11855, 103],
    [1136, 19447, 11950, 107], [1112, 19372, 12045, 111],
    [1089, 19295, 12140, 116], [1066, 19219, 12236, 120],
    [1043, 19141, 12331, 125], [1020, 19063, 12427, 130],
    [999, 18985, 12522, 135], [977, 18905, 12618, 140],
    [956, 18826, 12714, 145], [935, 18746, 12809, 150],
    [914, 18665, 12905, 156], [894, 18584, 13001, 161],
    [874, 18502, 13097, 167], [854, 18420, 13193, 173],
    [835, 18337, 13289, 179], [816, 18254, 13385, 186],
    [797, 18170, 13481, 192], [779, 18086, 13577, 199],
    [761, 18001, 13673, 205], [743, 17916, 13769, 212],
    [726, 17830, 13865, 219], [708, 17744, 13961, 227],
    [692, 17658, 14056, 234], [675, 17571, 14152, 242],
    [659, 17484, 14248, 250], [643, 17396, 14343, 257],
    [627, 17308, 14439, 266], [612, 17220, 14534, 274],
    [597, 17131, 14630, 283], [582, 17042, 14725, 291],
    [567, 16953, 14820, 300], [553, 16863, 14915, 309],
    [539, 16773, 15010, 319], [525, 16682, 15104, 328],
    [512, 16592, 15199, 338], [498, 16500, 15293, 348],
    [485, 16409, 15387, 358], [473, 16317, 15481, 369],
    [460, 16226, 15575, 379], [448, 16133, 15669, 390],
    [436, 16041, 15762, 401], [424, 15948, 15855, 412],
    [412, 15855, 15948, 424], [401, 15762, 16041, 436],
    [390, 15669, 16133, 448], [379, 15575, 16226, 460],
    [369, 15481, 16317, 473], [358, 15387, 16409, 485],
    [348, 15293, 16500, 498], [338, 15199, 16592, 512],
    [328, 15104, 16682, 525], [319, 15010, 16773, 539],
    [309, 14915, 16863, 553], [300, 14820, 16953, 567],
    [291, 14725, 17042, 582], [283, 14630, 17131, 597],
    [274, 14534, 17220, 612], [266, 14439, 17308, 627],
    [257, 14343, 17396, 643], [250, 14248, 17484, 659],
    [242, 14152, 17571, 675], [234, 14056, 17658, 692],
    [227, 13961, 17744, 708], [219, 13865, 17830, 726],
    [212, 13769, 17916, 743], [205, 13673, 18001, 761],
    [199, 13577, 18086, 779], [192, 13481, 18170, 797],
    [186, 13385, 18254, 816], [179, 13289, 18337, 835],
    [173, 13193, 18420, 854], [167, 13097, 18502, 874],
    [161, 13001, 18584, 894], [156, 12905, 18665, 914],
    [150, 12809, 18746, 935], [145, 12714, 18826, 956],
    [140, 12618, 18905, 977], [135, 12522, 18985, 999],
    [130, 12427, 19063, 1020], [125, 12331, 19141, 1043],
    [120, 12236, 19219, 1066], [116, 12140, 19295, 1089],
    [111, 12045, 19372, 1112], [107, 11950, 19447, 1136],
    [103, 11855, 19522, 1160], [99, 11760, 19597, 1184],
    [95, 11665, 19671, 1209], [91, 11571, 19744, 1234],
    [87, 11476, 19816, 1260], [84, 11382, 19888, 1286],
    [80, 11288, 19959, 1312], [77, 11194, 20030, 1339],
    [73, 11100, 20100, 1366], [70, 11007, 20169, 1394],
    [67, 10913, 20238, 1422], [64, 10820, 20306, 1450],
    [61, 10727, 20373, 1479], [58, 10635, 20439, 1508],
    [56, 10542, 20505, 1537], [53, 10450, 20570, 1567],
    [51, 10358, 20634, 1598], [48, 10266, 20698, 1628],
    [46, 10174, 20760, 1660], [44, 10083, 20822, 1691],
    [41, 9992, 20884, 1723], [39, 9901, 20944, 1756],
    [37, 9811, 21004, 1789], [35, 9720, 21063, 1822],
    [33, 9630, 21121, 1856], [32, 9541, 21178, 1890],
    [30, 9451, 21235, 1924], [28, 9362, 21290, 1959],
    [27, 9273, 21345, 1995], [25, 9185, 21399, 2031],
    [24, 9097, 21452, 2067], [22, 9009, 21505, 2104],
    [21, 8922, 21556, 2141], [19, 8834, 21607, 2179],
    [18, 8748, 21657, 2217], [17, 8661, 21706, 2256],
    [16, 8575, 21754, 2295], [15, 8489, 21801, 2334],
    [14, 8404, 21848, 2374], [13, 8319, 21893, 2415],
    [12, 8234, 21938, 2456], [11, 8150, 21982, 2497],
    [10, 8066, 22025, 2539], [9, 7983, 22066, 2582],
    [9, 7900, 22107, 2624], [8, 7817, 22148, 2668],
    [7, 7735, 22187, 2712], [7, 7653, 22225, 2756],
    [6, 7571, 22262, 2801], [5, 7490, 22299, 2846],
    [5, 7409, 22334, 2892], [4, 7329, 22369, 2938],
    [4, 7249, 22402, 2985], [3, 7170, 22435, 3032],
    [3, 7091, 22467, 3079], [3, 7012, 22498, 3128],
    [2, 6934, 22527, 3176], [2, 6856, 22556, 3225],
    [2, 6779, 22584, 3275], [1, 6702, 22611, 3325],
    [1, 6626, 22637, 3376], [1, 6550, 22662, 3427],
    [1, 6475, 22686, 3479], [0, 6400, 22709, 3531],
    [0, 6325, 22731, 3584], [0, 6251, 22752, 3637],
    [0, 6177, 22772, 3691], [0, 6104, 22791, 3745],
    [0, 6032, 22809, 3799], [0, 5959, 22826, 3855],
    [-1, 5888, 22842, 3910], [-1, 5817, 22857, 3967],
    [-1, 5746, 22872, 4023], [-1, 5676, 22885, 4081],
    [-1, 5606, 22897, 4138], [-1, 5536, 22908, 4197],
    [-1, 5468, 22918, 4255], [-1, 5399, 22927, 4315],
    [-1, 5332, 22935, 4374], [-1, 5264, 22942, 4435],
    [-1, 5197, 22948, 4495], [-1, 5131, 22953, 4557],
    [-1, 5065, 22957, 4619], [-1, 5000, 22960, 4681],
    [-1, 4935, 22962, 4744], [-1, 4871, 22963, 4807],
];

/// Stateless four-sample interpolator using [`GAUSSIAN_WEIGHTS`].
#[derive(Clone, Copy, Debug, Default, PartialEq, Eq, Structural)]
pub struct GaussianInterpolator;

/// One tap: the product of a sample and its weight in Q15, rounded down.
#[verifier::opaque]
pub open spec fn gaussian_tap(samples: Seq<i16>, phase: u8, tap: int) -> int {
    (samples[tap] * GAUSSIAN_WEIGHTS[phase as int][tap]) / 0x8000
}

/// The interpolated value before saturation.
pub open spec fn gaussian_sum(samples: Seq<i16>, phase: u8) -> int {
    gaussian_tap(samples, phase, 0) + gaussian_tap(samples, phase, 1) + gaussian_tap(
        samples,
        phase,
        2,
    ) + gaussian_tap(samples, phase, 3)
}

fn weighted(sample: i16, weight: i16) -> (result: i32)
    ensures
        result == (sample * weight) / 0x8000,
        -0x8000 <= result <= 0x8000,
{
    proof {
        assert(-0x4000_0000 <= sample * weight <= 0x4000_0000) by (nonlinear_arith)
            requires
                -0x8000 <= sample <= 0x7fff,
                -0x8000 <= weight <= 0x7fff,
        ;
        lemma_shr_i32((sample * weight) as i32);
    }
    (i32::from(sample) * i32::from(weight)) >> 15
}

impl GaussianInterpolator {
    /// Interpolates samples at an eight-bit phase and saturates the result.
    pub fn interpolate(samples: [i16; 4], phase: u8) -> (result: i16)
        ensures
            result == crate::spu_common::fixed::clamp16(gaussian_sum(samples@, phase)),
    {
        proof {
            reveal(gaussian_tap);
        }
        let weights = GAUSSIAN_WEIGHTS[phase as usize];
        let sum: i32 = weighted(samples[0], weights[0]) + weighted(samples[1], weights[1])
            + weighted(samples[2], weights[2]) + weighted(samples[3], weights[3]);
        clamp_i16(sum)
    }
}

/// A row sums to the hardware scale within rounding and mirrors the row of the opposite
/// phase.
pub open spec fn is_balanced(phase: int) -> bool {
    let row = GAUSSIAN_WEIGHTS[phase];
    let mirror = GAUSSIAN_WEIGHTS[255 - phase];
    &&& 32639 <= row[0] + row[1] + row[2] + row[3] <= 32641
    &&& mirror[0] == row[3]
    &&& mirror[1] == row[2]
    &&& mirror[2] == row[1]
    &&& mirror[3] == row[0]
}

/// The rows of the first half of the phases, one by one.
proof fn lemma_first_half_is_balanced()
    ensures
        forall|phase: int| 0 <= phase < 128 ==> #[trigger] is_balanced(phase),
{
    assert(is_balanced(0) && is_balanced(1) && is_balanced(2) && is_balanced(3));
    assert(is_balanced(4) && is_balanced(5) && is_balanced(6) && is_balanced(7));
    assert(is_balanced(8) && is_balanced(9) && is_balanced(10) && is_balanced(11));
    assert(is_balanced(12) && is_balanced(13) && is_balanced(14) && is_balanced(15));
    assert(is_balanced(16) && is_balanced(17) && is_balanced(18) && is_balanced(19));
    assert(is_balanced(20) && is_balanced(21) && is_balanced(22) && is_balanced(23));
    assert(is_balanced(24) && is_balanced(25) && is_balanced(26) && is_balanced(27));
    assert(is_balanced(28) && is_balanced(29) && is_balanced(30) && is_balanced(31));
    assert(is_balanced(32) && is_balanced(33) && is_balanced(34) && is_balanced(35));
    assert(is_balanced(36) && is_balanced(37) && is_balanced(38) && is_balanced(39));
    assert(is_balanced(40) && is_balanced(41) && is_balanced(42) && is_balanced(43));
    assert(is_balanced(44) && is_balanced(45) && is_balanced(46) && is_balanced(47));
    assert(is_balanced(48) && is_balanced(49) && is_balanced(50) && is_balanced(51));
    assert(is_balanced(52) && is_balanced(53) && is_balanced(54) && is_balanced(55));
    assert(is_balanced(56) && is_balanced(57) && is_balanced(58) && is_balanced(59));
    assert(is_balanced(60) && is_balanced(61) && is_balanced(62) && is_balanced(63));
    assert(is_balanced(64) && is_balanced(65) && is_balanced(66) && is_balanced(67));
    assert(is_balanced(68) && is_balanced(69) && is_balanced(70) && is_balanced(71));
    assert(is_balanced(72) && is_balanced(73) && is_balanced(74) && is_balanced(75));
    assert(is_balanced(76) && is_balanced(77) && is_balanced(78) && is_balanced(79));
    assert(is_balanced(80) && is_balanced(81) && is_balanced(82) && is_balanced(83));
    assert(is_balanced(84) && is_balanced(85) && is_balanced(86) && is_balanced(87));
    assert(is_balanced(88) && is_balanced(89) && is_balanced(90) && is_balanced(91));
    assert(is_balanced(92) && is_balanced(93) && is_balanced(94) && is_balanced(95));
    assert(is_balanced(96) && is_balanced(97) && is_balanced(98) && is_balanced(99));
    assert(is_balanced(100) && is_balanced(101) && is_balanced(102) && is_balanced(103));
    assert(is_balanced(104) && is_balanced(105) && is_balanced(106) && is_balanced(107));
    assert(is_balanced(108) && is_balanced(109) && is_balanced(110) && is_balanced(111));
    assert(is_balanced(112) && is_balanced(113) && is_balanced(114) && is_balanced(115));
    assert(is_balanced(116) && is_balanced(117) && is_balanced(118) && is_balanced(119));
    assert(is_balanced(120) && is_balanced(121) && is_balanced(122) && is_balanced(123));
    assert(is_balanced(124) && is_balanced(125) && is_balanced(126) && is_balanced(127));
}

/// The table is normalized and symmetric: every row sums to the hardware scale within
/// rounding, and the rows of opposite phases mirror each other.
pub proof fn law_table_is_normalized_and_symmetric(phase: u8)
    ensures
        is_balanced(phase as int),
{
    lemma_first_half_is_balanced();
    if phase >= 128 {
        assert(is_balanced(255 - phase));
    }
}

} // verus!
