//! The sRGB transfer function in fixed point.
//!
//! Linear intensities are integers in units of `1 / LINEAR_ONE`. Decoding maps
//! each sRGB byte to its linear intensity; encoding first quantises an
//! intensity to one of 65536 evenly spaced levels and then maps the level to the
//! nearest sRGB byte, so that a level `l` encodes to the largest byte `b` with
//! `srgb_step(b) <= l`.
//!
//! Both tables follow the IEC 61966-2-1 curve: a byte `v` decodes to
//! `(v / 255) / 12.92` up to `v / 255 = 0.04045` and to
//! `((v / 255 + 0.055) / 1.055)^2.4` above, evaluated in single precision and
//! rounded to the fixed-point unit; level `l` encodes to
//! `round(255 * e(l / 65535))` with `e(x) = 12.92 x` up to `x = 0.0031308` and
//! `1.055 x^(1 / 2.4) - 0.055` above, also in single precision.
use vstd::prelude::*;

verus! {

/// Linear intensity 1.0 in the fixed-point units used by [`srgb_to_linear`].
pub const LINEAR_ONE: u64 = 2147483648;

/// The highest quantised linear level that [`linear_to_srgb`] accepts.
pub const LEVEL_MAX: u32 = 65535;

/// The linear intensity of an sRGB byte, in units of `1 / LINEAR_ONE`.
pub open spec fn srgb_linear(value: u8) -> int {
    match value {

        0 => 0, 1 => 651819, 2 => 1303639, 3 => 1955458,
        4 => 2607277, 5 => 3259096, 6 => 3910916, 7 => 4562735,
        8 => 5214554, 9 => 5866374, 10 => 6518193, 11 => 7186631,
        12 => 7895239, 13 => 8643014, 14 => 9430550, 15 => 10258429,
        16 => 11127223, 17 => 12037487, 18 => 12989769, 19 => 13984609,
        20 => 15022529, 21 => 16104048, 22 => 17229674, 23 => 18399908,
        24 => 19615238, 25 => 20876156, 26 => 22183126, 27 => 23536622,
        28 => 24937106, 29 => 26385030, 30 => 27880846, 31 => 29424994,
        32 => 31017918, 33 => 32660036, 34 => 34351776, 35 => 36093564,
        36 => 37885804, 37 => 39728916, 38 => 41623304, 39 => 43569356,
        40 => 45567476, 41 => 47618052, 42 => 49721472, 43 => 51878116,
        44 => 54088364, 45 => 56352596, 46 => 58671168, 47 => 61044452,
        48 => 63472816, 49 => 65956612, 50 => 68496200, 51 => 71091936,
        52 => 73744176, 53 => 76453240, 54 => 79219480, 55 => 82043248,
        56 => 84924896, 57 => 87864720, 58 => 90863064, 59 => 93920256,
        60 => 97036632, 61 => 100212504, 62 => 103448200, 63 => 106744032,
        64 => 110100344, 65 => 113517392, 66 => 116995512, 67 => 120535024,
        68 => 124136224, 69 => 127799416, 70 => 131524936, 71 => 135313008,
        72 => 139163984, 73 => 143078144, 74 => 147055776, 75 => 151097184,
        76 => 155202640, 77 => 159372448, 78 => 163606880, 79 => 167906224,
        80 => 172270768, 81 => 176700784, 82 => 181196544, 83 => 185758336,
        84 => 190386464, 85 => 195081136, 86 => 199842640, 87 => 204671264,
        88 => 209567264, 89 => 214530912, 90 => 219562480, 91 => 224662208,
        92 => 229830384, 93 => 235067248, 94 => 240373072, 95 => 245748112,
        96 => 251192608, 97 => 256706832, 98 => 262291072, 99 => 267945488,
        100 => 273670368, 101 => 279465984, 102 => 285332576, 103 => 291270400,
        104 => 297279648, 105 => 303360640, 106 => 309513568, 107 => 315738688,
        108 => 322036224, 109 => 328406432, 110 => 334849536, 111 => 341365856,
        112 => 347955488, 113 => 354618752, 114 => 361355776, 115 => 368166944,
        116 => 375052416, 117 => 382012448, 118 => 389047232, 119 => 396157024,
        120 => 403342016, 121 => 410602464, 122 => 417938560, 123 => 425350592,
        124 => 432838720, 125 => 440403168, 126 => 448044224, 127 => 455762016,
        128 => 463556960, 129 => 471428992, 130 => 479378432, 131 => 487405536,
        132 => 495510528, 133 => 503693696, 134 => 511955072, 135 => 520294912,
        136 => 528713472, 137 => 537211008, 138 => 545787648, 139 => 554443584,
        140 => 563179136, 141 => 571994432, 142 => 580889728, 143 => 589865152,
        144 => 598921024, 145 => 608057408, 146 => 617274624, 147 => 626572800,
        148 => 635952192, 149 => 645412992, 150 => 654955392, 151 => 664579520,
        152 => 674285696, 153 => 684074112, 154 => 693944832, 155 => 703898176,
        156 => 713934336, 157 => 724053440, 158 => 734255680, 159 => 744541376,
        160 => 754910720, 161 => 765363712, 162 => 775900608, 163 => 786521664,
        164 => 797227072, 165 => 808016960, 166 => 818891584, 167 => 829851072,
        168 => 840895680, 169 => 852025536, 170 => 863240896, 171 => 874541888,
        172 => 885928704, 173 => 897401536, 174 => 908960576, 175 => 920605952,
        176 => 932337984, 177 => 944156736, 178 => 956062400, 179 => 968055232,
        180 => 980135296, 181 => 992302912, 182 => 1004558144, 183 => 1016901248,
        184 => 1029332352, 185 => 1041851648, 186 => 1054459328, 187 => 1067155584,
        188 => 1079940736, 189 => 1092814592, 190 => 1105777536, 191 => 1118829696,
        192 => 1131971328, 193 => 1145202560, 194 => 1158523648, 195 => 1171934592,
        196 => 1185435648, 197 => 1199027072, 198 => 1212708992, 199 => 1226481408,
        200 => 1240344704, 201 => 1254299008, 202 => 1268344448, 203 => 1282481280,
        204 => 1296709504, 205 => 1311029376, 206 => 1325441152, 207 => 1339944832,
        208 => 1354540800, 209 => 1369229056, 210 => 1384009728, 211 => 1398883072,
        212 => 1413849216, 213 => 1428908416, 214 => 1444060800, 215 => 1459306496,
        216 => 1474645760, 217 => 1490078592, 218 => 1505605120, 219 => 1521225728,
        220 => 1536940416, 221 => 1552749312, 222 => 1568652800, 223 => 1584650880,
        224 => 1600743680, 225 => 1616931328, 226 => 1633214208, 227 => 1649592320,
        228 => 1666065792, 229 => 1682634880, 230 => 1699299584, 231 => 1716060288,
        232 => 1732916992, 233 => 1749869952, 234 => 1766919168, 235 => 1784064896,
        236 => 1801307392, 237 => 1818646528, 238 => 1836082816, 239 => 1853616128,
        240 => 1871246848, 241 => 1888974592, 242 => 1906800512, 243 => 1924723840,
        244 => 1942745472, 245 => 1960864512, 246 => 1979082368, 247 => 1997397888,
        248 => 2015812608, 249 => 2034325376, 250 => 2052937472, 251 => 2071648000,
        252 => 2090458240, 253 => 2109367040, 254 => 2128375808, 255 => 2147483648,
    }
}

/// The lowest of the 65536 linear levels that encodes to sRGB byte `b`.
pub open spec fn srgb_step(b: u8) -> int {
    match b {

        0 => 0, 1 => 10, 2 => 30, 3 => 50,
        4 => 70, 5 => 90, 6 => 110, 7 => 130,
        8 => 150, 9 => 170, 10 => 189, 11 => 209,
        12 => 230, 13 => 253, 14 => 276, 15 => 301,
        16 => 327, 17 => 354, 18 => 382, 19 => 412,
        20 => 443, 21 => 475, 22 => 509, 23 => 544,
        24 => 580, 25 => 618, 26 => 657, 27 => 698,
        28 => 740, 29 => 783, 30 => 828, 31 => 875,
        32 => 923, 33 => 972, 34 => 1023, 35 => 1075,
        36 => 1129, 37 => 1185, 38 => 1242, 39 => 1300,
        40 => 1360, 41 => 1422, 42 => 1486, 43 => 1551,
        44 => 1617, 45 => 1685, 46 => 1755, 47 => 1827,
        48 => 1900, 49 => 1975, 50 => 2052, 51 => 2130,
        52 => 2210, 53 => 2292, 54 => 2376, 55 => 2461,
        56 => 2548, 57 => 2637, 58 => 2727, 59 => 2820,
        60 => 2914, 61 => 3010, 62 => 3108, 63 => 3208,
        64 => 3309, 65 => 3412, 66 => 3518, 67 => 3625,
        68 => 3734, 69 => 3844, 70 => 3957, 71 => 4072,
        72 => 4188, 73 => 4307, 74 => 4427, 75 => 4550,
        76 => 4674, 77 => 4800, 78 => 4928, 79 => 5059,
        80 => 5191, 81 => 5325, 82 => 5461, 83 => 5599,
        84 => 5740, 85 => 5882, 86 => 6026, 87 => 6173,
        88 => 6321, 89 => 6471, 90 => 6624, 91 => 6778,
        92 => 6935, 93 => 7094, 94 => 7255, 95 => 7418,
        96 => 7583, 97 => 7750, 98 => 7919, 99 => 8091,
        100 => 8265, 101 => 8440, 102 => 8618, 103 => 8798,
        104 => 8981, 105 => 9165, 106 => 9352, 107 => 9541,
        108 => 9732, 109 => 9925, 110 => 10121, 111 => 10318,
        112 => 10518, 113 => 10720, 114 => 10925, 115 => 11132,
        116 => 11341, 117 => 11552, 118 => 11765, 119 => 11981,
        120 => 12199, 121 => 12420, 122 => 12643, 123 => 12868,
        124 => 13095, 125 => 13325, 126 => 13557, 127 => 13791,
        128 => 14028, 129 => 14267, 130 => 14508, 131 => 14752,
        132 => 14998, 133 => 15247, 134 => 15498, 135 => 15751,
        136 => 16007, 137 => 16265, 138 => 16525, 139 => 16788,
        140 => 17054, 141 => 17321, 142 => 17592, 143 => 17864,
        144 => 18139, 145 => 18417, 146 => 18697, 147 => 18980,
        148 => 19264, 149 => 19552, 150 => 19842, 151 => 20134,
        152 => 20429, 153 => 20727, 154 => 21027, 155 => 21329,
        156 => 21634, 157 => 21942, 158 => 22252, 159 => 22564,
        160 => 22880, 161 => 23197, 162 => 23518, 163 => 23840,
        164 => 24166, 165 => 24494, 166 => 24824, 167 => 25158,
        168 => 25493, 169 => 25832, 170 => 26173, 171 => 26516,
        172 => 26862, 173 => 27211, 174 => 27563, 175 => 27917,
        176 => 28273, 177 => 28633, 178 => 28995, 179 => 29359,
        180 => 29727, 181 => 30097, 182 => 30469, 183 => 30845,
        184 => 31223, 185 => 31603, 186 => 31987, 187 => 32373,
        188 => 32762, 189 => 33153, 190 => 33547, 191 => 33944,
        192 => 34344, 193 => 34747, 194 => 35152, 195 => 35560,
        196 => 35970, 197 => 36384, 198 => 36800, 199 => 37219,
        200 => 37640, 201 => 38065, 202 => 38492, 203 => 38922,
        204 => 39355, 205 => 39790, 206 => 40229, 207 => 40670,
        208 => 41114, 209 => 41561, 210 => 42011, 211 => 42463,
        212 => 42918, 213 => 43377, 214 => 43838, 215 => 44301,
        216 => 44768, 217 => 45238, 218 => 45710, 219 => 46185,
        220 => 46663, 221 => 47144, 222 => 47628, 223 => 48115,
        224 => 48605, 225 => 49097, 226 => 49593, 227 => 50091,
        228 => 50592, 229 => 51096, 230 => 51604, 231 => 52114,
        232 => 52627, 233 => 53142, 234 => 53661, 235 => 54183,
        236 => 54708, 237 => 55235, 238 => 55766, 239 => 56300,
        240 => 56836, 241 => 57376, 242 => 57918, 243 => 58464,
        244 => 59012, 245 => 59564, 246 => 60118, 247 => 60675,
        248 => 61236, 249 => 61799, 250 => 62366, 251 => 62935,
        252 => 63508, 253 => 64083, 254 => 64662, 255 => 65244,
    }
}

/// The largest sRGB byte at most `b` whose step does not exceed `level`.
pub open spec fn encoded_below(level: int, b: int) -> int
    decreases b,
{
    if b <= 0 {
        0
    } else if srgb_step(b as u8) <= level {
        b
    } else {
        encoded_below(level, b - 1)
    }
}

/// The sRGB byte that encodes quantised linear level `level`.
pub open spec fn srgb_encoded(level: int) -> u8 {
    encoded_below(level, 255) as u8
}

/// The quantised linear level nearest to the intensity `sum / count`, where
/// `sum` is in units of `1 / LINEAR_ONE`; halves round up.
pub open spec fn linear_level(sum: int, count: int) -> int {
    (2 * sum * 65535 + count * LINEAR_ONE) / (2 * count * LINEAR_ONE)
}

/// Decodes an sRGB byte to its linear intensity in units of `1 / LINEAR_ONE`.
pub fn srgb_to_linear(value: u8) -> (linear: u32)
    ensures
        linear == srgb_linear(value),
{
    match value {

        0 => 0, 1 => 651819, 2 => 1303639, 3 => 1955458,
        4 => 2607277, 5 => 3259096, 6 => 3910916, 7 => 4562735,
        8 => 5214554, 9 => 5866374, 10 => 6518193, 11 => 7186631,
        12 => 7895239, 13 => 8643014, 14 => 9430550, 15 => 10258429,
        16 => 11127223, 17 => 12037487, 18 => 12989769, 19 => 13984609,
        20 => 15022529, 21 => 16104048, 22 => 17229674, 23 => 18399908,
        24 => 19615238, 25 => 20876156, 26 => 22183126, 27 => 23536622,
        28 => 24937106, 29 => 26385030, 30 => 27880846, 31 => 29424994,
        32 => 31017918, 33 => 32660036, 34 => 34351776, 35 => 36093564,
        36 => 37885804, 37 => 39728916, 38 => 41623304, 39 => 43569356,
        40 => 45567476, 41 => 47618052, 42 => 49721472, 43 => 51878116,
        44 => 54088364, 45 => 56352596, 46 => 58671168, 47 => 61044452,
        48 => 63472816, 49 => 65956612, 50 => 68496200, 51 => 71091936,
        52 => 73744176, 53 => 76453240, 54 => 79219480, 55 => 82043248,
        56 => 84924896, 57 => 87864720, 58 => 90863064, 59 => 93920256,
        60 => 97036632, 61 => 100212504, 62 => 103448200, 63 => 106744032,
        64 => 110100344, 65 => 113517392, 66 => 116995512, 67 => 120535024,
        68 => 124136224, 69 => 127799416, 70 => 131524936, 71 => 135313008,
        72 => 139163984, 73 => 143078144, 74 => 147055776, 75 => 151097184,
        76 => 155202640, 77 => 159372448, 78 => 163606880, 79 => 167906224,
        80 => 172270768, 81 => 176700784, 82 => 181196544, 83 => 185758336,
        84 => 190386464, 85 => 195081136, 86 => 199842640, 87 => 204671264,
        88 => 209567264, 89 => 214530912, 90 => 219562480, 91 => 224662208,
        92 => 229830384, 93 => 235067248, 94 => 240373072, 95 => 245748112,
        96 => 251192608, 97 => 256706832, 98 => 262291072, 99 => 267945488,
        100 => 273670368, 101 => 279465984, 102 => 285332576, 103 => 291270400,
        104 => 297279648, 105 => 303360640, 106 => 309513568, 107 => 315738688,
        108 => 322036224, 109 => 328406432, 110 => 334849536, 111 => 341365856,
        112 => 347955488, 113 => 354618752, 114 => 361355776, 115 => 368166944,
        116 => 375052416, 117 => 382012448, 118 => 389047232, 119 => 396157024,
        120 => 403342016, 121 => 410602464, 122 => 417938560, 123 => 425350592,
        124 => 432838720, 125 => 440403168, 126 => 448044224, 127 => 455762016,
        128 => 463556960, 129 => 471428992, 130 => 479378432, 131 => 487405536,
        132 => 495510528, 133 => 503693696, 134 => 511955072, 135 => 520294912,
        136 => 528713472, 137 => 537211008, 138 => 545787648, 139 => 554443584,
        140 => 563179136, 141 => 571994432, 142 => 580889728, 143 => 589865152,
        144 => 598921024, 145 => 608057408, 146 => 617274624, 147 => 626572800,
        148 => 635952192, 149 => 645412992, 150 => 654955392, 151 => 664579520,
        152 => 674285696, 153 => 684074112, 154 => 693944832, 155 => 703898176,
        156 => 713934336, 157 => 724053440, 158 => 734255680, 159 => 744541376,
        160 => 754910720, 161 => 765363712, 162 => 775900608, 163 => 786521664,
        164 => 797227072, 165 => 808016960, 166 => 818891584, 167 => 829851072,
        168 => 840895680, 169 => 852025536, 170 => 863240896, 171 => 874541888,
        172 => 885928704, 173 => 897401536, 174 => 908960576, 175 => 920605952,
        176 => 932337984, 177 => 944156736, 178 => 956062400, 179 => 968055232,
        180 => 980135296, 181 => 992302912, 182 => 1004558144, 183 => 1016901248,
        184 => 1029332352, 185 => 1041851648, 186 => 1054459328, 187 => 1067155584,
        188 => 1079940736, 189 => 1092814592, 190 => 1105777536, 191 => 1118829696,
        192 => 1131971328, 193 => 1145202560, 194 => 1158523648, 195 => 1171934592,
        196 => 1185435648, 197 => 1199027072, 198 => 1212708992, 199 => 1226481408,
        200 => 1240344704, 201 => 1254299008, 202 => 1268344448, 203 => 1282481280,
        204 => 1296709504, 205 => 1311029376, 206 => 1325441152, 207 => 1339944832,
        208 => 1354540800, 209 => 1369229056, 210 => 1384009728, 211 => 1398883072,
        212 => 1413849216, 213 => 1428908416, 214 => 1444060800, 215 => 1459306496,
        216 => 1474645760, 217 => 1490078592, 218 => 1505605120, 219 => 1521225728,
        220 => 1536940416, 221 => 1552749312, 222 => 1568652800, 223 => 1584650880,
        224 => 1600743680, 225 => 1616931328, 226 => 1633214208, 227 => 1649592320,
        228 => 1666065792, 229 => 1682634880, 230 => 1699299584, 231 => 1716060288,
        232 => 1732916992, 233 => 1749869952, 234 => 1766919168, 235 => 1784064896,
        236 => 1801307392, 237 => 1818646528, 238 => 1836082816, 239 => 1853616128,
        240 => 1871246848, 241 => 1888974592, 242 => 1906800512, 243 => 1924723840,
        244 => 1942745472, 245 => 1960864512, 246 => 1979082368, 247 => 1997397888,
        248 => 2015812608, 249 => 2034325376, 250 => 2052937472, 251 => 2071648000,
        252 => 2090458240, 253 => 2109367040, 254 => 2128375808, 255 => 2147483648,
    }
}

fn srgb_step_at(b: u8) -> (step: u32)
    ensures
        step == srgb_step(b),
{
    match b {

        0 => 0, 1 => 10, 2 => 30, 3 => 50,
        4 => 70, 5 => 90, 6 => 110, 7 => 130,
        8 => 150, 9 => 170, 10 => 189, 11 => 209,
        12 => 230, 13 => 253, 14 => 276, 15 => 301,
        16 => 327, 17 => 354, 18 => 382, 19 => 412,
        20 => 443, 21 => 475, 22 => 509, 23 => 544,
        24 => 580, 25 => 618, 26 => 657, 27 => 698,
        28 => 740, 29 => 783, 30 => 828, 31 => 875,
        32 => 923, 33 => 972, 34 => 1023, 35 => 1075,
        36 => 1129, 37 => 1185, 38 => 1242, 39 => 1300,
        40 => 1360, 41 => 1422, 42 => 1486, 43 => 1551,
        44 => 1617, 45 => 1685, 46 => 1755, 47 => 1827,
        48 => 1900, 49 => 1975, 50 => 2052, 51 => 2130,
        52 => 2210, 53 => 2292, 54 => 2376, 55 => 2461,
        56 => 2548, 57 => 2637, 58 => 2727, 59 => 2820,
        60 => 2914, 61 => 3010, 62 => 3108, 63 => 3208,
        64 => 3309, 65 => 3412, 66 => 3518, 67 => 3625,
        68 => 3734, 69 => 3844, 70 => 3957, 71 => 4072,
        72 => 4188, 73 => 4307, 74 => 4427, 75 => 4550,
        76 => 4674, 77 => 4800, 78 => 4928, 79 => 5059,
        80 => 5191, 81 => 5325, 82 => 5461, 83 => 5599,
        84 => 5740, 85 => 5882, 86 => 6026, 87 => 6173,
        88 => 6321, 89 => 6471, 90 => 6624, 91 => 6778,
        92 => 6935, 93 => 7094, 94 => 7255, 95 => 7418,
        96 => 7583, 97 => 7750, 98 => 7919, 99 => 8091,
        100 => 8265, 101 => 8440, 102 => 8618, 103 => 8798,
        104 => 8981, 105 => 9165, 106 => 9352, 107 => 9541,
        108 => 9732, 109 => 9925, 110 => 10121, 111 => 10318,
        112 => 10518, 113 => 10720, 114 => 10925, 115 => 11132,
        116 => 11341, 117 => 11552, 118 => 11765, 119 => 11981,
        120 => 12199, 121 => 12420, 122 => 12643, 123 => 12868,
        124 => 13095, 125 => 13325, 126 => 13557, 127 => 13791,
        128 => 14028, 129 => 14267, 130 => 14508, 131 => 14752,
        132 => 14998, 133 => 15247, 134 => 15498, 135 => 15751,
        136 => 16007, 137 => 16265, 138 => 16525, 139 => 16788,
        140 => 17054, 141 => 17321, 142 => 17592, 143 => 17864,
        144 => 18139, 145 => 18417, 146 => 18697, 147 => 18980,
        148 => 19264, 149 => 19552, 150 => 19842, 151 => 20134,
        152 => 20429, 153 => 20727, 154 => 21027, 155 => 21329,
        156 => 21634, 157 => 21942, 158 => 22252, 159 => 22564,
        160 => 22880, 161 => 23197, 162 => 23518, 163 => 23840,
        164 => 24166, 165 => 24494, 166 => 24824, 167 => 25158,
        168 => 25493, 169 => 25832, 170 => 26173, 171 => 26516,
        172 => 26862, 173 => 27211, 174 => 27563, 175 => 27917,
        176 => 28273, 177 => 28633, 178 => 28995, 179 => 29359,
        180 => 29727, 181 => 30097, 182 => 30469, 183 => 30845,
        184 => 31223, 185 => 31603, 186 => 31987, 187 => 32373,
        188 => 32762, 189 => 33153, 190 => 33547, 191 => 33944,
        192 => 34344, 193 => 34747, 194 => 35152, 195 => 35560,
        196 => 35970, 197 => 36384, 198 => 36800, 199 => 37219,
        200 => 37640, 201 => 38065, 202 => 38492, 203 => 38922,
        204 => 39355, 205 => 39790, 206 => 40229, 207 => 40670,
        208 => 41114, 209 => 41561, 210 => 42011, 211 => 42463,
        212 => 42918, 213 => 43377, 214 => 43838, 215 => 44301,
        216 => 44768, 217 => 45238, 218 => 45710, 219 => 46185,
        220 => 46663, 221 => 47144, 222 => 47628, 223 => 48115,
        224 => 48605, 225 => 49097, 226 => 49593, 227 => 50091,
        228 => 50592, 229 => 51096, 230 => 51604, 231 => 52114,
        232 => 52627, 233 => 53142, 234 => 53661, 235 => 54183,
        236 => 54708, 237 => 55235, 238 => 55766, 239 => 56300,
        240 => 56836, 241 => 57376, 242 => 57918, 243 => 58464,
        244 => 59012, 245 => 59564, 246 => 60118, 247 => 60675,
        248 => 61236, 249 => 61799, 250 => 62366, 251 => 62935,
        252 => 63508, 253 => 64083, 254 => 64662, 255 => 65244,
    }
}


/// The steps rise strictly from byte to byte.
proof fn lemma_steps_rise()
    ensures
        forall|b: u8| b < 255 ==> #[trigger] srgb_step(b) < srgb_step((b + 1) as u8),
{

    assert(srgb_step(0u8) < srgb_step(1u8));
    assert(srgb_step(1u8) < srgb_step(2u8));
    assert(srgb_step(2u8) < srgb_step(3u8));
    assert(srgb_step(3u8) < srgb_step(4u8));
    assert(srgb_step(4u8) < srgb_step(5u8));
    assert(srgb_step(5u8) < srgb_step(6u8));
    assert(srgb_step(6u8) < srgb_step(7u8));
    assert(srgb_step(7u8) < srgb_step(8u8));
    assert(srgb_step(8u8) < srgb_step(9u8));
    assert(srgb_step(9u8) < srgb_step(10u8));
    assert(srgb_step(10u8) < srgb_step(11u8));
    assert(srgb_step(11u8) < srgb_step(12u8));
    assert(srgb_step(12u8) < srgb_step(13u8));
    assert(srgb_step(13u8) < srgb_step(14u8));
    assert(srgb_step(14u8) < srgb_step(15u8));
    assert(srgb_step(15u8) < srgb_step(16u8));
    assert(srgb_step(16u8) < srgb_step(17u8));
    assert(srgb_step(17u8) < srgb_step(18u8));
    assert(srgb_step(18u8) < srgb_step(19u8));
    assert(srgb_step(19u8) < srgb_step(20u8));
    assert(srgb_step(20u8) < srgb_step(21u8));
    assert(srgb_step(21u8) < srgb_step(22u8));
    assert(srgb_step(22u8) < srgb_step(23u8));
    assert(srgb_step(23u8) < srgb_step(24u8));
    assert(srgb_step(24u8) < srgb_step(25u8));
    assert(srgb_step(25u8) < srgb_step(26u8));
    assert(srgb_step(26u8) < srgb_step(27u8));
    assert(srgb_step(27u8) < srgb_step(28u8));
    assert(srgb_step(28u8) < srgb_step(29u8));
    assert(srgb_step(29u8) < srgb_step(30u8));
    assert(srgb_step(30u8) < srgb_step(31u8));
    assert(srgb_step(31u8) < srgb_step(32u8));
    assert(srgb_step(32u8) < srgb_step(33u8));
    assert(srgb_step(33u8) < srgb_step(34u8));
    assert(srgb_step(34u8) < srgb_step(35u8));
    assert(srgb_step(35u8) < srgb_step(36u8));
    assert(srgb_step(36u8) < srgb_step(37u8));
    assert(srgb_step(37u8) < srgb_step(38u8));
    assert(srgb_step(38u8) < srgb_step(39u8));
    assert(srgb_step(39u8) < srgb_step(40u8));
    assert(srgb_step(40u8) < srgb_step(41u8));
    assert(srgb_step(41u8) < srgb_step(42u8));
    assert(srgb_step(42u8) < srgb_step(43u8));
    assert(srgb_step(43u8) < srgb_step(44u8));
    assert(srgb_step(44u8) < srgb_step(45u8));
    assert(srgb_step(45u8) < srgb_step(46u8));
    assert(srgb_step(46u8) < srgb_step(47u8));
    assert(srgb_step(47u8) < srgb_step(48u8));
    assert(srgb_step(48u8) < srgb_step(49u8));
    assert(srgb_step(49u8) < srgb_step(50u8));
    assert(srgb_step(50u8) < srgb_step(51u8));
    assert(srgb_step(51u8) < srgb_step(52u8));
    assert(srgb_step(52u8) < srgb_step(53u8));
    assert(srgb_step(53u8) < srgb_step(54u8));
    assert(srgb_step(54u8) < srgb_step(55u8));
    assert(srgb_step(55u8) < srgb_step(56u8));
    assert(srgb_step(56u8) < srgb_step(57u8));
    assert(srgb_step(57u8) < srgb_step(58u8));
    assert(srgb_step(58u8) < srgb_step(59u8));
    assert(srgb_step(59u8) < srgb_step(60u8));
    assert(srgb_step(60u8) < srgb_step(61u8));
    assert(srgb_step(61u8) < srgb_step(62u8));
    assert(srgb_step(62u8) < srgb_step(63u8));
    assert(srgb_step(63u8) < srgb_step(64u8));
    assert(srgb_step(64u8) < srgb_step(65u8));
    assert(srgb_step(65u8) < srgb_step(66u8));
    assert(srgb_step(66u8) < srgb_step(67u8));
    assert(srgb_step(67u8) < srgb_step(68u8));
    assert(srgb_step(68u8) < srgb_step(69u8));
    assert(srgb_step(69u8) < srgb_step(70u8));
    assert(srgb_step(70u8) < srgb_step(71u8));
    assert(srgb_step(71u8) < srgb_step(72u8));
    assert(srgb_step(72u8) < srgb_step(73u8));
    assert(srgb_step(73u8) < srgb_step(74u8));
    assert(srgb_step(74u8) < srgb_step(75u8));
    assert(srgb_step(75u8) < srgb_step(76u8));
    assert(srgb_step(76u8) < srgb_step(77u8));
    assert(srgb_step(77u8) < srgb_step(78u8));
    assert(srgb_step(78u8) < srgb_step(79u8));
    assert(srgb_step(79u8) < srgb_step(80u8));
    assert(srgb_step(80u8) < srgb_step(81u8));
    assert(srgb_step(81u8) < srgb_step(82u8));
    assert(srgb_step(82u8) < srgb_step(83u8));
    assert(srgb_step(83u8) < srgb_step(84u8));
    assert(srgb_step(84u8) < srgb_step(85u8));
    assert(srgb_step(85u8) < srgb_step(86u8));
    assert(srgb_step(86u8) < srgb_step(87u8));
    assert(srgb_step(87u8) < srgb_step(88u8));
    assert(srgb_step(88u8) < srgb_step(89u8));
    assert(srgb_step(89u8) < srgb_step(90u8));
    assert(srgb_step(90u8) < srgb_step(91u8));
    assert(srgb_step(91u8) < srgb_step(92u8));
    assert(srgb_step(92u8) < srgb_step(93u8));
    assert(srgb_step(93u8) < srgb_step(94u8));
    assert(srgb_step(94u8) < srgb_step(95u8));
    assert(srgb_step(95u8) < srgb_step(96u8));
    assert(srgb_step(96u8) < srgb_step(97u8));
    assert(srgb_step(97u8) < srgb_step(98u8));
    assert(srgb_step(98u8) < srgb_step(99u8));
    assert(srgb_step(99u8) < srgb_step(100u8));
    assert(srgb_step(100u8) < srgb_step(101u8));
    assert(srgb_step(101u8) < srgb_step(102u8));
    assert(srgb_step(102u8) < srgb_step(103u8));
    assert(srgb_step(103u8) < srgb_step(104u8));
    assert(srgb_step(104u8) < srgb_step(105u8));
    assert(srgb_step(105u8) < srgb_step(106u8));
    assert(srgb_step(106u8) < srgb_step(107u8));
    assert(srgb_step(107u8) < srgb_step(108u8));
    assert(srgb_step(108u8) < srgb_step(109u8));
    assert(srgb_step(109u8) < srgb_step(110u8));
    assert(srgb_step(110u8) < srgb_step(111u8));
    assert(srgb_step(111u8) < srgb_step(112u8));
    assert(srgb_step(112u8) < srgb_step(113u8));
    assert(srgb_step(113u8) < srgb_step(114u8));
    assert(srgb_step(114u8) < srgb_step(115u8));
    assert(srgb_step(115u8) < srgb_step(116u8));
    assert(srgb_step(116u8) < srgb_step(117u8));
    assert(srgb_step(117u8) < srgb_step(118u8));
    assert(srgb_step(118u8) < srgb_step(119u8));
    assert(srgb_step(119u8) < srgb_step(120u8));
    assert(srgb_step(120u8) < srgb_step(121u8));
    assert(srgb_step(121u8) < srgb_step(122u8));
    assert(srgb_step(122u8) < srgb_step(123u8));
    assert(srgb_step(123u8) < srgb_step(124u8));
    assert(srgb_step(124u8) < srgb_step(125u8));
    assert(srgb_step(125u8) < srgb_step(126u8));
    assert(srgb_step(126u8) < srgb_step(127u8));
    assert(srgb_step(127u8) < srgb_step(128u8));
    assert(srgb_step(128u8) < srgb_step(129u8));
    assert(srgb_step(129u8) < srgb_step(130u8));
    assert(srgb_step(130u8) < srgb_step(131u8));
    assert(srgb_step(131u8) < srgb_step(132u8));
    assert(srgb_step(132u8) < srgb_step(133u8));
    assert(srgb_step(133u8) < srgb_step(134u8));
    assert(srgb_step(134u8) < srgb_step(135u8));
    assert(srgb_step(135u8) < srgb_step(136u8));
    assert(srgb_step(136u8) < srgb_step(137u8));
    assert(srgb_step(137u8) < srgb_step(138u8));
    assert(srgb_step(138u8) < srgb_step(139u8));
    assert(srgb_step(139u8) < srgb_step(140u8));
    assert(srgb_step(140u8) < srgb_step(141u8));
    assert(srgb_step(141u8) < srgb_step(142u8));
    assert(srgb_step(142u8) < srgb_step(143u8));
    assert(srgb_step(143u8) < srgb_step(144u8));
    assert(srgb_step(144u8) < srgb_step(145u8));
    assert(srgb_step(145u8) < srgb_step(146u8));
    assert(srgb_step(146u8) < srgb_step(147u8));
    assert(srgb_step(147u8) < srgb_step(148u8));
    assert(srgb_step(148u8) < srgb_step(149u8));
    assert(srgb_step(149u8) < srgb_step(150u8));
    assert(srgb_step(150u8) < srgb_step(151u8));
    assert(srgb_step(151u8) < srgb_step(152u8));
    assert(srgb_step(152u8) < srgb_step(153u8));
    assert(srgb_step(153u8) < srgb_step(154u8));
    assert(srgb_step(154u8) < srgb_step(155u8));
    assert(srgb_step(155u8) < srgb_step(156u8));
    assert(srgb_step(156u8) < srgb_step(157u8));
    assert(srgb_step(157u8) < srgb_step(158u8));
    assert(srgb_step(158u8) < srgb_step(159u8));
    assert(srgb_step(159u8) < srgb_step(160u8));
    assert(srgb_step(160u8) < srgb_step(161u8));
    assert(srgb_step(161u8) < srgb_step(162u8));
    assert(srgb_step(162u8) < srgb_step(163u8));
    assert(srgb_step(163u8) < srgb_step(164u8));
    assert(srgb_step(164u8) < srgb_step(165u8));
    assert(srgb_step(165u8) < srgb_step(166u8));
    assert(srgb_step(166u8) < srgb_step(167u8));
    assert(srgb_step(167u8) < srgb_step(168u8));
    assert(srgb_step(168u8) < srgb_step(169u8));
    assert(srgb_step(169u8) < srgb_step(170u8));
    assert(srgb_step(170u8) < srgb_step(171u8));
    assert(srgb_step(171u8) < srgb_step(172u8));
    assert(srgb_step(172u8) < srgb_step(173u8));
    assert(srgb_step(173u8) < srgb_step(174u8));
    assert(srgb_step(174u8) < srgb_step(175u8));
    assert(srgb_step(175u8) < srgb_step(176u8));
    assert(srgb_step(176u8) < srgb_step(177u8));
    assert(srgb_step(177u8) < srgb_step(178u8));
    assert(srgb_step(178u8) < srgb_step(179u8));
    assert(srgb_step(179u8) < srgb_step(180u8));
    assert(srgb_step(180u8) < srgb_step(181u8));
    assert(srgb_step(181u8) < srgb_step(182u8));
    assert(srgb_step(182u8) < srgb_step(183u8));
    assert(srgb_step(183u8) < srgb_step(184u8));
    assert(srgb_step(184u8) < srgb_step(185u8));
    assert(srgb_step(185u8) < srgb_step(186u8));
    assert(srgb_step(186u8) < srgb_step(187u8));
    assert(srgb_step(187u8) < srgb_step(188u8));
    assert(srgb_step(188u8) < srgb_step(189u8));
    assert(srgb_step(189u8) < srgb_step(190u8));
    assert(srgb_step(190u8) < srgb_step(191u8));
    assert(srgb_step(191u8) < srgb_step(192u8));
    assert(srgb_step(192u8) < srgb_step(193u8));
    assert(srgb_step(193u8) < srgb_step(194u8));
    assert(srgb_step(194u8) < srgb_step(195u8));
    assert(srgb_step(195u8) < srgb_step(196u8));
    assert(srgb_step(196u8) < srgb_step(197u8));
    assert(srgb_step(197u8) < srgb_step(198u8));
    assert(srgb_step(198u8) < srgb_step(199u8));
    assert(srgb_step(199u8) < srgb_step(200u8));
    assert(srgb_step(200u8) < srgb_step(201u8));
    assert(srgb_step(201u8) < srgb_step(202u8));
    assert(srgb_step(202u8) < srgb_step(203u8));
    assert(srgb_step(203u8) < srgb_step(204u8));
    assert(srgb_step(204u8) < srgb_step(205u8));
    assert(srgb_step(205u8) < srgb_step(206u8));
    assert(srgb_step(206u8) < srgb_step(207u8));
    assert(srgb_step(207u8) < srgb_step(208u8));
    assert(srgb_step(208u8) < srgb_step(209u8));
    assert(srgb_step(209u8) < srgb_step(210u8));
    assert(srgb_step(210u8) < srgb_step(211u8));
    assert(srgb_step(211u8) < srgb_step(212u8));
    assert(srgb_step(212u8) < srgb_step(213u8));
    assert(srgb_step(213u8) < srgb_step(214u8));
    assert(srgb_step(214u8) < srgb_step(215u8));
    assert(srgb_step(215u8) < srgb_step(216u8));
    assert(srgb_step(216u8) < srgb_step(217u8));
    assert(srgb_step(217u8) < srgb_step(218u8));
    assert(srgb_step(218u8) < srgb_step(219u8));
    assert(srgb_step(219u8) < srgb_step(220u8));
    assert(srgb_step(220u8) < srgb_step(221u8));
    assert(srgb_step(221u8) < srgb_step(222u8));
    assert(srgb_step(222u8) < srgb_step(223u8));
    assert(srgb_step(223u8) < srgb_step(224u8));
    assert(srgb_step(224u8) < srgb_step(225u8));
    assert(srgb_step(225u8) < srgb_step(226u8));
    assert(srgb_step(226u8) < srgb_step(227u8));
    assert(srgb_step(227u8) < srgb_step(228u8));
    assert(srgb_step(228u8) < srgb_step(229u8));
    assert(srgb_step(229u8) < srgb_step(230u8));
    assert(srgb_step(230u8) < srgb_step(231u8));
    assert(srgb_step(231u8) < srgb_step(232u8));
    assert(srgb_step(232u8) < srgb_step(233u8));
    assert(srgb_step(233u8) < srgb_step(234u8));
    assert(srgb_step(234u8) < srgb_step(235u8));
    assert(srgb_step(235u8) < srgb_step(236u8));
    assert(srgb_step(236u8) < srgb_step(237u8));
    assert(srgb_step(237u8) < srgb_step(238u8));
    assert(srgb_step(238u8) < srgb_step(239u8));
    assert(srgb_step(239u8) < srgb_step(240u8));
    assert(srgb_step(240u8) < srgb_step(241u8));
    assert(srgb_step(241u8) < srgb_step(242u8));
    assert(srgb_step(242u8) < srgb_step(243u8));
    assert(srgb_step(243u8) < srgb_step(244u8));
    assert(srgb_step(244u8) < srgb_step(245u8));
    assert(srgb_step(245u8) < srgb_step(246u8));
    assert(srgb_step(246u8) < srgb_step(247u8));
    assert(srgb_step(247u8) < srgb_step(248u8));
    assert(srgb_step(248u8) < srgb_step(249u8));
    assert(srgb_step(249u8) < srgb_step(250u8));
    assert(srgb_step(250u8) < srgb_step(251u8));
    assert(srgb_step(251u8) < srgb_step(252u8));
    assert(srgb_step(252u8) < srgb_step(253u8));
    assert(srgb_step(253u8) < srgb_step(254u8));
    assert(srgb_step(254u8) < srgb_step(255u8));
}

/// Steps grow with the byte they belong to.
proof fn lemma_steps_ordered(i: int, j: int)
    requires
        0 <= i < j <= 255,
    ensures
        srgb_step(i as u8) < srgb_step(j as u8),
    decreases j - i,
{
    lemma_steps_rise();
    let before: u8 = (j - 1) as u8;
    assert(srgb_step(before) < srgb_step((before + 1) as u8));
    if j > i + 1 {
        lemma_steps_ordered(i, j - 1);
    }
}

/// A byte whose step range holds `level` is the byte that `level` encodes to.
proof fn lemma_encoded_is(level: int, found: int, b: int)
    requires
        0 <= found <= b <= 255,
        srgb_step(found as u8) <= level,
        found == 255 || level < srgb_step((found + 1) as u8),
    ensures
        encoded_below(level, b) == found,
    decreases b,
{
    if b > found {
        if b > found + 1 {
            lemma_steps_ordered(found + 1, b);
        }
        lemma_encoded_is(level, found, b - 1);
    }
}

/// Encodes a quantised linear level (`0..=65535`) to the sRGB byte whose step
/// range holds it.
pub fn linear_to_srgb(level: u32) -> (encoded: u8)
    requires
        level <= LEVEL_MAX,
    ensures
        encoded == srgb_encoded(level as int),
{
    let mut lo: usize = 0;
    let mut hi: usize = 256;
    while hi - lo > 1
        invariant
            lo < hi <= 256,
            srgb_step(lo as u8) <= level,
            hi == 256 || level < srgb_step(hi as u8),
        decreases hi - lo,
    {
        let mid: usize = lo + (hi - lo) / 2;
        if srgb_step_at(mid as u8) <= level {
            lo = mid;
        } else {
            hi = mid;
        }
    }
    proof {
        lemma_encoded_is(level as int, lo as int, 255);
    }
    lo as u8
}

/// Encodes a linear byte (intensity `value / 255`) to sRGB.
pub fn linear_to_srgb_byte(value: u8) -> (encoded: u8)
    ensures
        encoded == srgb_encoded(value * 257),
{
    linear_to_srgb(value as u32 * 257)
}


proof fn lemma_round_trip_0(b: u8)
    requires
        0 <= b < 32,
    ensures
        srgb_encoded(linear_level(srgb_linear(b), 1)) == b,
{
    if b == 0 {
        vstd::arithmetic::div_mod::lemma_fundamental_div_mod_converse(2147483648, 4294967296, 0, 2147483648);
        lemma_encoded_is(0, 0, 255);
    } else if b == 1 {
        vstd::arithmetic::div_mod::lemma_fundamental_div_mod_converse(87581399978, 4294967296, 20, 1682054058);
        lemma_encoded_is(20, 1, 255);
    } else if b == 2 {
        vstd::arithmetic::div_mod::lemma_fundamental_div_mod_converse(173015447378, 4294967296, 40, 1216755538);
        lemma_encoded_is(40, 2, 255);
    } else if b == 3 {
        vstd::arithmetic::div_mod::lemma_fundamental_div_mod_converse(258449363708, 4294967296, 60, 751325948);
        lemma_encoded_is(60, 3, 255);
    } else if b == 4 {
        vstd::arithmetic::div_mod::lemma_fundamental_div_mod_converse(343883280038, 4294967296, 80, 285896358);
        lemma_encoded_is(80, 4, 255);
    } else if b == 5 {
        vstd::arithmetic::div_mod::lemma_fundamental_div_mod_converse(429317196368, 4294967296, 99, 4115434064);
        lemma_encoded_is(99, 5, 255);
    } else if b == 6 {
        vstd::arithmetic::div_mod::lemma_fundamental_div_mod_converse(514751243768, 4294967296, 119, 3650135544);
        lemma_encoded_is(119, 6, 255);
    } else if b == 7 {
        vstd::arithmetic::div_mod::lemma_fundamental_div_mod_converse(600185160098, 4294967296, 139, 3184705954);
        lemma_encoded_is(139, 7, 255);
    } else if b == 8 {
        vstd::arithmetic::div_mod::lemma_fundamental_div_mod_converse(685619076428, 4294967296, 159, 2719276364);
        lemma_encoded_is(159, 8, 255);
    } else if b == 9 {
        vstd::arithmetic::div_mod::lemma_fundamental_div_mod_converse(771053123828, 4294967296, 179, 2253977844);
        lemma_encoded_is(179, 9, 255);
    } else if b == 10 {
        vstd::arithmetic::div_mod::lemma_fundamental_div_mod_converse(856487040158, 4294967296, 199, 1788548254);
        lemma_encoded_is(199, 10, 255);
    } else if b == 11 {
        vstd::arithmetic::div_mod::lemma_fundamental_div_mod_converse(944099208818, 4294967296, 219, 3501370994);
        lemma_encoded_is(219, 11, 255);
    } else if b == 12 {
        vstd::arithmetic::div_mod::lemma_fundamental_div_mod_converse(1036976459378, 4294967296, 241, 1889341042);
        lemma_encoded_is(241, 12, 255);
    } else if b == 13 {
        vstd::arithmetic::div_mod::lemma_fundamental_div_mod_converse(1134987328628, 4294967296, 264, 1115962484);
        lemma_encoded_is(264, 13, 255);
    } else if b == 14 {
        vstd::arithmetic::div_mod::lemma_fundamental_div_mod_converse(1238209672148, 4294967296, 288, 1259090900);
        lemma_encoded_is(288, 14, 255);
    } else if b == 15 {
        vstd::arithmetic::div_mod::lemma_fundamental_div_mod_converse(1346719772678, 4294967296, 313, 2395009030);
        lemma_encoded_is(313, 15, 255);
    } else if b == 16 {
        vstd::arithmetic::div_mod::lemma_fundamental_div_mod_converse(1460592602258, 4294967296, 340, 303721618);
        lemma_encoded_is(340, 16, 255);
    } else if b == 17 {
        vstd::arithmetic::div_mod::lemma_fundamental_div_mod_converse(1579900904738, 4294967296, 367, 3647907106);
        lemma_encoded_is(367, 17, 255);
    } else if b == 18 {
        vstd::arithmetic::div_mod::lemma_fundamental_div_mod_converse(1704716506478, 4294967296, 396, 3909457262);
        lemma_encoded_is(396, 18, 255);
    } else if b == 19 {
        vstd::arithmetic::div_mod::lemma_fundamental_div_mod_converse(1835110185278, 4294967296, 427, 1159149886);
        lemma_encoded_is(427, 19, 255);
    } else if b == 20 {
        vstd::arithmetic::div_mod::lemma_fundamental_div_mod_converse(1971150359678, 4294967296, 458, 4055338110);
        lemma_encoded_is(458, 20, 255);
    } else if b == 21 {
        vstd::arithmetic::div_mod::lemma_fundamental_div_mod_converse(2112905055008, 4294967296, 491, 4076112672);
        lemma_encoded_is(491, 21, 255);
    } else if b == 22 {
        vstd::arithmetic::div_mod::lemma_fundamental_div_mod_converse(2260440854828, 4294967296, 526, 1288057132);
        lemma_encoded_is(526, 22, 255);
    } else if b == 23 {
        vstd::arithmetic::div_mod::lemma_fundamental_div_mod_converse(2413823425208, 4294967296, 562, 51804856);
        lemma_encoded_is(562, 23, 255);
    } else if b == 24 {
        vstd::arithmetic::div_mod::lemma_fundamental_div_mod_converse(2573116728308, 4294967296, 599, 431318004);
        lemma_encoded_is(599, 24, 255);
    } else if b == 25 {
        vstd::arithmetic::div_mod::lemma_fundamental_div_mod_converse(2738385250568, 4294967296, 637, 2491083016);
        lemma_encoded_is(637, 25, 255);
    } else if b == 26 {
        vstd::arithmetic::div_mod::lemma_fundamental_div_mod_converse(2909689808468, 4294967296, 677, 1996949076);
        lemma_encoded_is(677, 26, 255);
    } else if b == 27 {
        vstd::arithmetic::div_mod::lemma_fundamental_div_mod_converse(3087092529188, 4294967296, 718, 3306010660);
        lemma_encoded_is(718, 27, 255);
    } else if b == 28 {
        vstd::arithmetic::div_mod::lemma_fundamental_div_mod_converse(3270653967068, 4294967296, 761, 2183854812);
        lemma_encoded_is(761, 28, 255);
    } else if b == 29 {
        vstd::arithmetic::div_mod::lemma_fundamental_div_mod_converse(3460433365748, 4294967296, 805, 2984692468);
        lemma_encoded_is(805, 29, 255);
    } else if b == 30 {
        vstd::arithmetic::div_mod::lemma_fundamental_div_mod_converse(3656489968868, 4294967296, 851, 1472799972);
        lemma_encoded_is(851, 30, 255);
    } else if b == 31 {
        vstd::arithmetic::div_mod::lemma_fundamental_div_mod_converse(3858881447228, 4294967296, 898, 2000815420);
        lemma_encoded_is(898, 31, 255);
    }
}

proof fn lemma_round_trip_1(b: u8)
    requires
        32 <= b < 64,
    ensures
        srgb_encoded(linear_level(srgb_linear(b), 1)) == b,
{
    if b == 32 {
        vstd::arithmetic::div_mod::lemma_fundamental_div_mod_converse(4067665995908, 4294967296, 947, 331966596);
        lemma_encoded_is(947, 32, 255);
    } else if b == 33 {
        vstd::arithmetic::div_mod::lemma_fundamental_div_mod_converse(4282898402168, 4294967296, 997, 816008056);
        lemma_encoded_is(997, 33, 255);
    } else if b == 34 {
        vstd::arithmetic::div_mod::lemma_fundamental_div_mod_converse(4504634763968, 4294967296, 1048, 3509037760);
        lemma_encoded_is(1048, 34, 255);
    } else if b == 35 {
        vstd::arithmetic::div_mod::lemma_fundamental_div_mod_converse(4732930917128, 4294967296, 1101, 4171924232);
        lemma_encoded_is(1101, 35, 255);
    } else if b == 36 {
        vstd::arithmetic::div_mod::lemma_fundamental_div_mod_converse(4967839813928, 4294967296, 1156, 2857619752);
        lemma_encoded_is(1156, 36, 255);
    } else if b == 37 {
        vstd::arithmetic::div_mod::lemma_fundamental_div_mod_converse(5209416503768, 4294967296, 1212, 3916141016);
        lemma_encoded_is(1212, 37, 255);
    } else if b == 38 {
        vstd::arithmetic::div_mod::lemma_fundamental_div_mod_converse(5457713938928, 4294967296, 1270, 3105473008);
        lemma_encoded_is(1270, 38, 255);
    } else if b == 39 {
        vstd::arithmetic::div_mod::lemma_fundamental_div_mod_converse(5712782974568, 4294967296, 1330, 476470888);
        lemma_encoded_is(1330, 39, 255);
    } else if b == 40 {
        vstd::arithmetic::div_mod::lemma_fundamental_div_mod_converse(5974676562968, 4294967296, 1391, 377054232);
        lemma_encoded_is(1391, 40, 255);
    } else if b == 41 {
        vstd::arithmetic::div_mod::lemma_fundamental_div_mod_converse(6243445559288, 4294967296, 1453, 2858078200);
        lemma_encoded_is(1453, 41, 255);
    } else if b == 42 {
        vstd::arithmetic::div_mod::lemma_fundamental_div_mod_converse(6519140818688, 4294967296, 1517, 3675430656);
        lemma_encoded_is(1517, 42, 255);
    } else if b == 43 {
        vstd::arithmetic::div_mod::lemma_fundamental_div_mod_converse(6801812147768, 4294967296, 1583, 2878918200);
        lemma_encoded_is(1583, 43, 255);
    } else if b == 44 {
        vstd::arithmetic::div_mod::lemma_fundamental_div_mod_converse(7091509353128, 4294967296, 1651, 518347432);
        lemma_encoded_is(1651, 44, 255);
    } else if b == 45 {
        vstd::arithmetic::div_mod::lemma_fundamental_div_mod_converse(7388282241368, 4294967296, 1720, 938492248);
        lemma_encoded_is(1720, 45, 255);
    } else if b == 46 {
        vstd::arithmetic::div_mod::lemma_fundamental_div_mod_converse(7692177473408, 4294967296, 1790, 4186013568);
        lemma_encoded_is(1790, 46, 255);
    } else if b == 47 {
        vstd::arithmetic::div_mod::lemma_fundamental_div_mod_converse(8003243807288, 4294967296, 1863, 1719734840);
        lemma_encoded_is(1863, 47, 255);
    } else if b == 48 {
        vstd::arithmetic::div_mod::lemma_fundamental_div_mod_converse(8321529476768, 4294967296, 1937, 2177824416);
        lemma_encoded_is(1937, 48, 255);
    } else if b == 49 {
        vstd::arithmetic::div_mod::lemma_fundamental_div_mod_converse(8647080618488, 4294967296, 2013, 1311451640);
        lemma_encoded_is(2013, 49, 255);
    } else if b == 50 {
        vstd::arithmetic::div_mod::lemma_fundamental_div_mod_converse(8979944417648, 4294967296, 2090, 3462769008);
        lemma_encoded_is(2090, 50, 255);
    } else if b == 51 {
        vstd::arithmetic::div_mod::lemma_fundamental_div_mod_converse(9320167535168, 4294967296, 2170, 88502848);
        lemma_encoded_is(2170, 51, 255);
    } else if b == 52 {
        vstd::arithmetic::div_mod::lemma_fundamental_div_mod_converse(9667796631968, 4294967296, 2250, 4120215968);
        lemma_encoded_is(2250, 52, 255);
    } else if b == 53 {
        vstd::arithmetic::div_mod::lemma_fundamental_div_mod_converse(10022873650448, 4294967296, 2333, 2714948880);
        lemma_encoded_is(2333, 53, 255);
    } else if b == 54 {
        vstd::arithmetic::div_mod::lemma_fundamental_div_mod_converse(10385444727248, 4294967296, 2418, 213805520);
        lemma_encoded_is(2418, 54, 255);
    } else if b == 55 {
        vstd::arithmetic::div_mod::lemma_fundamental_div_mod_converse(10755555999008, 4294967296, 2504, 957889824);
        lemma_encoded_is(2504, 55, 255);
    } else if b == 56 {
        vstd::arithmetic::div_mod::lemma_fundamental_div_mod_converse(11133253602368, 4294967296, 2592, 698371136);
        lemma_encoded_is(2592, 56, 255);
    } else if b == 57 {
        vstd::arithmetic::div_mod::lemma_fundamental_div_mod_converse(11518576334048, 4294967296, 2681, 3769013472);
        lemma_encoded_is(2681, 57, 255);
    } else if b == 58 {
        vstd::arithmetic::div_mod::lemma_fundamental_div_mod_converse(11911569282128, 4294967296, 2773, 1624970320);
        lemma_encoded_is(2773, 58, 255);
    } else if b == 59 {
        vstd::arithmetic::div_mod::lemma_fundamental_div_mod_converse(12312275437568, 4294967296, 2866, 2899167232);
        lemma_encoded_is(2866, 59, 255);
    } else if b == 60 {
        vstd::arithmetic::div_mod::lemma_fundamental_div_mod_converse(12720738839888, 4294967296, 2961, 3340676432);
        lemma_encoded_is(2961, 60, 255);
    } else if b == 61 {
        vstd::arithmetic::div_mod::lemma_fundamental_div_mod_converse(13137000382928, 4294967296, 3058, 2990391760);
        lemma_encoded_is(3058, 61, 255);
    } else if b == 62 {
        vstd::arithmetic::div_mod::lemma_fundamental_div_mod_converse(13561103057648, 4294967296, 3157, 1891304176);
        lemma_encoded_is(3157, 62, 255);
    } else if b == 63 {
        vstd::arithmetic::div_mod::lemma_fundamental_div_mod_converse(13993087757888, 4294967296, 3258, 84307520);
        lemma_encoded_is(3258, 63, 255);
    }
}

proof fn lemma_round_trip_2(b: u8)
    requires
        64 <= b < 96,
    ensures
        srgb_encoded(linear_level(srgb_linear(b), 1)) == b,
{
    if b == 64 {
        vstd::arithmetic::div_mod::lemma_fundamental_div_mod_converse(14432999571728, 4294967296, 3360, 1909457168);
        lemma_encoded_is(3360, 64, 255);
    } else if b == 65 {
        vstd::arithmetic::div_mod::lemma_fundamental_div_mod_converse(14880872053088, 4294967296, 3464, 3105339744);
        lemma_encoded_is(3464, 65, 255);
    } else if b == 66 {
        vstd::arithmetic::div_mod::lemma_fundamental_div_mod_converse(15336749241488, 4294967296, 3570, 3715994768);
        lemma_encoded_is(3570, 66, 255);
    } else if b == 67 {
        vstd::arithmetic::div_mod::lemma_fundamental_div_mod_converse(15800673079328, 4294967296, 3678, 3783364640);
        lemma_encoded_is(3678, 67, 255);
    } else if b == 68 {
        vstd::arithmetic::div_mod::lemma_fundamental_div_mod_converse(16272682363328, 4294967296, 3788, 3346246080);
        lemma_encoded_is(3788, 68, 255);
    } else if b == 69 {
        vstd::arithmetic::div_mod::lemma_fundamental_div_mod_converse(16752816938768, 4294967296, 3900, 2444484368);
        lemma_encoded_is(3900, 69, 255);
    } else if b == 70 {
        vstd::arithmetic::div_mod::lemma_fundamental_div_mod_converse(17241120845168, 4294967296, 4014, 1122119024);
        lemma_encoded_is(4014, 70, 255);
    } else if b == 71 {
        vstd::arithmetic::div_mod::lemma_fundamental_div_mod_converse(17737623442208, 4294967296, 4129, 3703477024);
        lemma_encoded_is(4129, 71, 255);
    } else if b == 72 {
        vstd::arithmetic::div_mod::lemma_fundamental_div_mod_converse(18242370866528, 4294967296, 4247, 1644760416);
        lemma_encoded_is(4247, 72, 255);
    } else if b == 73 {
        vstd::arithmetic::div_mod::lemma_fundamental_div_mod_converse(18755399817728, 4294967296, 4366, 3572603392);
        lemma_encoded_is(4366, 73, 255);
    } else if b == 74 {
        vstd::arithmetic::div_mod::lemma_fundamental_div_mod_converse(19276748043968, 4294967296, 4488, 934819520);
        lemma_encoded_is(4488, 74, 255);
    } else if b == 75 {
        vstd::arithmetic::div_mod::lemma_fundamental_div_mod_converse(19806455390528, 4294967296, 4611, 2361188672);
        lemma_encoded_is(4611, 75, 255);
    } else if b == 76 {
        vstd::arithmetic::div_mod::lemma_fundamental_div_mod_converse(20344557508448, 4294967296, 4736, 3592394592);
        lemma_encoded_is(4736, 76, 255);
    } else if b == 77 {
        vstd::arithmetic::div_mod::lemma_fundamental_div_mod_converse(20891094243008, 4294967296, 4864, 373315264);
        lemma_encoded_is(4864, 77, 255);
    } else if b == 78 {
        vstd::arithmetic::div_mod::lemma_fundamental_div_mod_converse(21446101245248, 4294967296, 4993, 1329536320);
        lemma_encoded_is(4993, 78, 255);
    } else if b == 79 {
        vstd::arithmetic::div_mod::lemma_fundamental_div_mod_converse(22009616263328, 4294967296, 5124, 2203838624);
        lemma_encoded_is(5124, 79, 255);
    } else if b == 80 {
        vstd::arithmetic::div_mod::lemma_fundamental_div_mod_converse(22581677045408, 4294967296, 5257, 3033970336);
        lemma_encoded_is(5257, 80, 255);
    } else if b == 81 {
        vstd::arithmetic::div_mod::lemma_fundamental_div_mod_converse(23162319242528, 4294967296, 5392, 3855582496);
        lemma_encoded_is(5392, 81, 255);
    } else if b == 82 {
        vstd::arithmetic::div_mod::lemma_fundamental_div_mod_converse(23751578505728, 4294967296, 5530, 409358848);
        lemma_encoded_is(5530, 82, 255);
    } else if b == 83 {
        vstd::arithmetic::div_mod::lemma_fundamental_div_mod_converse(24349492583168, 4294967296, 5669, 1322982144);
        lemma_encoded_is(5669, 83, 255);
    } else if b == 84 {
        vstd::arithmetic::div_mod::lemma_fundamental_div_mod_converse(24956101320128, 4294967296, 5810, 2341330368);
        lemma_encoded_is(5810, 84, 255);
    } else if b == 85 {
        vstd::arithmetic::div_mod::lemma_fundamental_div_mod_converse(25571431979168, 4294967296, 5953, 3491666080);
        lemma_encoded_is(5953, 85, 255);
    } else if b == 86 {
        vstd::arithmetic::div_mod::lemma_fundamental_div_mod_converse(26195522308448, 4294967296, 6099, 516770144);
        lemma_encoded_is(6099, 86, 255);
    } else if b == 87 {
        vstd::arithmetic::div_mod::lemma_fundamental_div_mod_converse(26828410056128, 4294967296, 6246, 2044325312);
        lemma_encoded_is(6246, 87, 255);
    } else if b == 88 {
        vstd::arithmetic::div_mod::lemma_fundamental_div_mod_converse(27470128776128, 4294967296, 6395, 3812918208);
        lemma_encoded_is(6395, 88, 255);
    } else if b == 89 {
        vstd::arithmetic::div_mod::lemma_fundamental_div_mod_converse(28120714119488, 4294967296, 6547, 1563232576);
        lemma_encoded_is(6547, 89, 255);
    } else if b == 90 {
        vstd::arithmetic::div_mod::lemma_fundamental_div_mod_converse(28780201737248, 4294967296, 6700, 3920854048);
        lemma_encoded_is(6700, 90, 255);
    } else if b == 91 {
        vstd::arithmetic::div_mod::lemma_fundamental_div_mod_converse(29448623086208, 4294967296, 6856, 2327304832);
        lemma_encoded_is(6856, 91, 255);
    } else if b == 92 {
        vstd::arithmetic::div_mod::lemma_fundamental_div_mod_converse(30126015914528, 4294967296, 7014, 1115300384);
        lemma_encoded_is(7014, 92, 255);
    } else if b == 93 {
        vstd::arithmetic::div_mod::lemma_fundamental_div_mod_converse(30812411679008, 4294967296, 7174, 316297504);
        lemma_encoded_is(7174, 93, 255);
    } else if b == 94 {
        vstd::arithmetic::div_mod::lemma_fundamental_div_mod_converse(31507846030688, 4294967296, 7335, 4260914528);
        lemma_encoded_is(7335, 94, 255);
    } else if b == 95 {
        vstd::arithmetic::div_mod::lemma_fundamental_div_mod_converse(32212352523488, 4294967296, 7500, 97803488);
        lemma_encoded_is(7500, 95, 255);
    }
}

proof fn lemma_round_trip_3(b: u8)
    requires
        96 <= b < 128,
    ensures
        srgb_encoded(linear_level(srgb_linear(b), 1)) == b,
{
    if b == 96 {
        vstd::arithmetic::div_mod::lemma_fundamental_div_mod_converse(32925962614208, 4294967296, 7666, 743323072);
        lemma_encoded_is(7666, 96, 255);
    } else if b == 97 {
        vstd::arithmetic::div_mod::lemma_fundamental_div_mod_converse(33648711953888, 4294967296, 7834, 1938157024);
        lemma_encoded_is(7834, 97, 255);
    } else if b == 98 {
        vstd::arithmetic::div_mod::lemma_fundamental_div_mod_converse(34380638290688, 4294967296, 8004, 3720053504);
        lemma_encoded_is(8004, 98, 255);
    } else if b == 99 {
        vstd::arithmetic::div_mod::lemma_fundamental_div_mod_converse(35121762595808, 4294967296, 8177, 1815016416);
        lemma_encoded_is(8177, 99, 255);
    } else if b == 100 {
        vstd::arithmetic::div_mod::lemma_fundamental_div_mod_converse(35872122617408, 4294967296, 8352, 555761216);
        lemma_encoded_is(8352, 100, 255);
    } else if b == 101 {
        vstd::arithmetic::div_mod::lemma_fundamental_div_mod_converse(36631754006528, 4294967296, 8528, 4272906240);
        lemma_encoded_is(8528, 101, 255);
    } else if b == 102 {
        vstd::arithmetic::div_mod::lemma_fundamental_div_mod_converse(37400688219968, 4294967296, 8708, 113006400);
        lemma_encoded_is(8708, 102, 255);
    } else if b == 103 {
        vstd::arithmetic::div_mod::lemma_fundamental_div_mod_converse(38178958811648, 4294967296, 8889, 994517504);
        lemma_encoded_is(8889, 103, 255);
    } else if b == 104 {
        vstd::arithmetic::div_mod::lemma_fundamental_div_mod_converse(38966590947008, 4294967296, 9072, 2647637696);
        lemma_encoded_is(9072, 104, 255);
    } else if b == 105 {
        vstd::arithmetic::div_mod::lemma_fundamental_div_mod_converse(39763626568448, 4294967296, 9258, 819342080);
        lemma_encoded_is(9258, 105, 255);
    } else if b == 106 {
        vstd::arithmetic::div_mod::lemma_fundamental_div_mod_converse(40570090841408, 4294967296, 9445, 4124730688);
        lemma_encoded_is(9445, 106, 255);
    } else if b == 107 {
        vstd::arithmetic::div_mod::lemma_fundamental_div_mod_converse(41386017319808, 4294967296, 9635, 4007422848);
        lemma_encoded_is(9635, 107, 255);
    } else if b == 108 {
        vstd::arithmetic::div_mod::lemma_fundamental_div_mod_converse(42211435363328, 4294967296, 9828, 496778240);
        lemma_encoded_is(9828, 108, 255);
    } else if b == 109 {
        vstd::arithmetic::div_mod::lemma_fundamental_div_mod_converse(43046378525888, 4294967296, 10022, 2216285376);
        lemma_encoded_is(10022, 109, 255);
    } else if b == 110 {
        vstd::arithmetic::div_mod::lemma_fundamental_div_mod_converse(43890876167168, 4294967296, 10219, 605369344);
        lemma_encoded_is(10219, 110, 255);
    } else if b == 111 {
        vstd::arithmetic::div_mod::lemma_fundamental_div_mod_converse(44744970229568, 4294967296, 10418, 939840);
        lemma_encoded_is(10418, 111, 255);
    } else if b == 112 {
        vstd::arithmetic::div_mod::lemma_fundamental_div_mod_converse(45608673295808, 4294967296, 10619, 415579584);
        lemma_encoded_is(10619, 112, 255);
    } else if b == 113 {
        vstd::arithmetic::div_mod::lemma_fundamental_div_mod_converse(46482027308288, 4294967296, 10822, 1891230976);
        lemma_encoded_is(10822, 113, 255);
    } else if b == 114 {
        vstd::arithmetic::div_mod::lemma_fundamental_div_mod_converse(47365049043968, 4294967296, 11028, 149703680);
        lemma_encoded_is(11028, 114, 255);
    } else if b == 115 {
        vstd::arithmetic::div_mod::lemma_fundamental_div_mod_converse(48257788833728, 4294967296, 11235, 3831263168);
        lemma_encoded_is(11235, 115, 255);
    } else if b == 116 {
        vstd::arithmetic::div_mod::lemma_fundamental_div_mod_converse(49160267648768, 4294967296, 11446, 71978752);
        lemma_encoded_is(11446, 116, 255);
    } else if b == 117 {
        vstd::arithmetic::div_mod::lemma_fundamental_div_mod_converse(50072519043008, 4294967296, 11658, 1790306240);
        lemma_encoded_is(11658, 117, 255);
    } else if b == 118 {
        vstd::arithmetic::div_mod::lemma_fundamental_div_mod_converse(50994568181888, 4294967296, 11873, 421476480);
        lemma_encoded_is(11873, 118, 255);
    } else if b == 119 {
        vstd::arithmetic::div_mod::lemma_fundamental_div_mod_converse(51926448619328, 4294967296, 12090, 294010688);
        lemma_encoded_is(12090, 119, 255);
    } else if b == 120 {
        vstd::arithmetic::div_mod::lemma_fundamental_div_mod_converse(52868185520768, 4294967296, 12309, 1433074304);
        lemma_encoded_is(12309, 120, 255);
    } else if b == 121 {
        vstd::arithmetic::div_mod::lemma_fundamental_div_mod_converse(53819812440128, 4294967296, 12530, 3872221248);
        lemma_encoded_is(12530, 121, 255);
    } else if b == 122 {
        vstd::arithmetic::div_mod::lemma_fundamental_div_mod_converse(54781354542848, 4294967296, 12754, 3341649664);
        lemma_encoded_is(12754, 122, 255);
    } else if b == 123 {
        vstd::arithmetic::div_mod::lemma_fundamental_div_mod_converse(55752849577088, 4294967296, 12980, 4174075008);
        lemma_encoded_is(12980, 123, 255);
    } else if b == 124 {
        vstd::arithmetic::div_mod::lemma_fundamental_div_mod_converse(56734318514048, 4294967296, 13209, 2095501184);
        lemma_encoded_is(13209, 124, 255);
    } else if b == 125 {
        vstd::arithmetic::div_mod::lemma_fundamental_div_mod_converse(57725790713408, 4294967296, 13440, 1430255168);
        lemma_encoded_is(13440, 125, 255);
    } else if b == 126 {
        vstd::arithmetic::div_mod::lemma_fundamental_div_mod_converse(58727303923328, 4294967296, 13673, 2216085120);
        lemma_encoded_is(13673, 126, 255);
    } else if b == 127 {
        vstd::arithmetic::div_mod::lemma_fundamental_div_mod_converse(59738874920768, 4294967296, 13909, 174800704);
        lemma_encoded_is(13909, 127, 255);
    }
}

proof fn lemma_round_trip_4(b: u8)
    requires
        128 <= b < 160,
    ensures
        srgb_encoded(linear_level(srgb_linear(b), 1)) == b,
{
    if b == 128 {
        vstd::arithmetic::div_mod::lemma_fundamental_div_mod_converse(60760558230848, 4294967296, 14146, 3950861632);
        lemma_encoded_is(14146, 128, 255);
    } else if b == 129 {
        vstd::arithmetic::div_mod::lemma_fundamental_div_mod_converse(61792345465088, 4294967296, 14387, 650977536);
        lemma_encoded_is(14387, 129, 255);
    } else if b == 130 {
        vstd::arithmetic::div_mod::lemma_fundamental_div_mod_converse(62834278565888, 4294967296, 14629, 3201992704);
        lemma_encoded_is(14629, 130, 255);
    } else if b == 131 {
        vstd::arithmetic::div_mod::lemma_fundamental_div_mod_converse(63886391087168, 4294967296, 14874, 3047526464);
        lemma_encoded_is(14874, 131, 255);
    } else if b == 132 {
        vstd::arithmetic::div_mod::lemma_fundamental_div_mod_converse(64948712388608, 4294967296, 15122, 216938496);
        lemma_encoded_is(15122, 132, 255);
    } else if b == 133 {
        vstd::arithmetic::div_mod::lemma_fundamental_div_mod_converse(66021280218368, 4294967296, 15371, 3337911552);
        lemma_encoded_is(15371, 133, 255);
    } else if b == 134 {
        vstd::arithmetic::div_mod::lemma_fundamental_div_mod_converse(67104098770688, 4294967296, 15623, 3824705280);
        lemma_encoded_is(15623, 134, 255);
    } else if b == 135 {
        vstd::arithmetic::div_mod::lemma_fundamental_div_mod_converse(68197201599488, 4294967296, 15878, 1710873600);
        lemma_encoded_is(15878, 135, 255);
    } else if b == 136 {
        vstd::arithmetic::div_mod::lemma_fundamental_div_mod_converse(69300622258688, 4294967296, 16135, 1324937728);
        lemma_encoded_is(16135, 136, 255);
    } else if b == 137 {
        vstd::arithmetic::div_mod::lemma_fundamental_div_mod_converse(70414394302208, 4294967296, 16394, 2700451584);
        lemma_encoded_is(16394, 137, 255);
    } else if b == 138 {
        vstd::arithmetic::div_mod::lemma_fundamental_div_mod_converse(71538534507008, 4294967296, 16656, 1559224832);
        lemma_encoded_is(16656, 138, 255);
    } else if b == 139 {
        vstd::arithmetic::div_mod::lemma_fundamental_div_mod_converse(72673068038528, 4294967296, 16920, 2221390208);
        lemma_encoded_is(16920, 139, 255);
    } else if b == 140 {
        vstd::arithmetic::div_mod::lemma_fundamental_div_mod_converse(73818036839168, 4294967296, 17187, 433922816);
        lemma_encoded_is(17187, 140, 255);
    } else if b == 141 {
        vstd::arithmetic::div_mod::lemma_fundamental_div_mod_converse(74973457685888, 4294967296, 17456, 508566912);
        lemma_encoded_is(17456, 141, 255);
    } else if b == 142 {
        vstd::arithmetic::div_mod::lemma_fundamental_div_mod_converse(76139364132608, 4294967296, 17727, 2478876416);
        lemma_encoded_is(17727, 142, 255);
    } else if b == 143 {
        vstd::arithmetic::div_mod::lemma_fundamental_div_mod_converse(77315772956288, 4294967296, 18001, 2066660992);
        lemma_encoded_is(18001, 143, 255);
    } else if b == 144 {
        vstd::arithmetic::div_mod::lemma_fundamental_div_mod_converse(78502726099328, 4294967296, 18277, 3608830336);
        lemma_encoded_is(18277, 144, 255);
    } else if b == 145 {
        vstd::arithmetic::div_mod::lemma_fundamental_div_mod_converse(79700231950208, 4294967296, 18556, 2818805632);
        lemma_encoded_is(18556, 145, 255);
    } else if b == 146 {
        vstd::arithmetic::div_mod::lemma_fundamental_div_mod_converse(80908332451328, 4294967296, 18837, 4033496576);
        lemma_encoded_is(18837, 146, 255);
    } else if b == 147 {
        vstd::arithmetic::div_mod::lemma_fundamental_div_mod_converse(82127044379648, 4294967296, 19121, 2974712832);
        lemma_encoded_is(19121, 147, 255);
    } else if b == 148 {
        vstd::arithmetic::div_mod::lemma_fundamental_div_mod_converse(83356401289088, 4294967296, 19407, 3970975616);
        lemma_encoded_is(19407, 148, 255);
    } else if b == 149 {
        vstd::arithmetic::div_mod::lemma_fundamental_div_mod_converse(84596428345088, 4294967296, 19696, 2752483072);
        lemma_encoded_is(19696, 149, 255);
    } else if b == 150 {
        vstd::arithmetic::div_mod::lemma_fundamental_div_mod_converse(85847150713088, 4294967296, 19987, 3639367936);
        lemma_encoded_is(19987, 150, 255);
    } else if b == 151 {
        vstd::arithmetic::div_mod::lemma_fundamental_div_mod_converse(87108585170048, 4294967296, 20281, 2353439872);
        lemma_encoded_is(20281, 151, 255);
    } else if b == 152 {
        vstd::arithmetic::div_mod::lemma_fundamental_div_mod_converse(88380773658368, 4294967296, 20577, 3231608576);
        lemma_encoded_is(20577, 152, 255);
    } else if b == 153 {
        vstd::arithmetic::div_mod::lemma_fundamental_div_mod_converse(89663741343488, 4294967296, 20876, 2004072192);
        lemma_encoded_is(20876, 153, 255);
    } else if b == 154 {
        vstd::arithmetic::div_mod::lemma_fundamental_div_mod_converse(90957496613888, 4294967296, 21177, 2974186496);
        lemma_encoded_is(21177, 154, 255);
    } else if b == 155 {
        vstd::arithmetic::div_mod::lemma_fundamental_div_mod_converse(92262081411968, 4294967296, 21481, 1888926592);
        lemma_encoded_is(21481, 155, 255);
    } else if b == 156 {
        vstd::arithmetic::div_mod::lemma_fundamental_div_mod_converse(93577520903168, 4294967296, 21787, 3068425216);
        lemma_encoded_is(21787, 156, 255);
    } else if b == 157 {
        vstd::arithmetic::div_mod::lemma_fundamental_div_mod_converse(94903831864448, 4294967296, 22096, 2234492032);
        lemma_encoded_is(22096, 157, 255);
    } else if b == 158 {
        vstd::arithmetic::div_mod::lemma_fundamental_div_mod_converse(96241039461248, 4294967296, 22407, 3707259776);
        lemma_encoded_is(22407, 158, 255);
    } else if b == 159 {
        vstd::arithmetic::div_mod::lemma_fundamental_div_mod_converse(97589185635968, 4294967296, 22721, 3233703552);
        lemma_encoded_is(22721, 159, 255);
    }
}

proof fn lemma_round_trip_5(b: u8)
    requires
        160 <= b < 192,
    ensures
        srgb_encoded(linear_level(srgb_linear(b), 1)) == b,
{
    if b == 160 {
        vstd::arithmetic::div_mod::lemma_fundamental_div_mod_converse(98948295554048, 4294967296, 23038, 838988800);
        lemma_encoded_is(23038, 160, 255);
    } else if b == 161 {
        vstd::arithmetic::div_mod::lemma_fundamental_div_mod_converse(100318369215488, 4294967296, 23357, 818082816);
        lemma_encoded_is(23357, 161, 255);
    } else if b == 162 {
        vstd::arithmetic::div_mod::lemma_fundamental_div_mod_converse(101699440174208, 4294967296, 23678, 3204539520);
        lemma_encoded_is(23678, 162, 255);
    } else if b == 163 {
        vstd::arithmetic::div_mod::lemma_fundamental_div_mod_converse(103091541984128, 4294967296, 24002, 3736945536);
        lemma_encoded_is(24002, 163, 255);
    } else if b == 164 {
        vstd::arithmetic::div_mod::lemma_fundamental_div_mod_converse(104494699810688, 4294967296, 24329, 2440466304);
        lemma_encoded_is(24329, 164, 255);
    } else if b == 165 {
        vstd::arithmetic::div_mod::lemma_fundamental_div_mod_converse(105908930430848, 4294967296, 24658, 3626846080);
        lemma_encoded_is(24658, 165, 255);
    } else if b == 166 {
        vstd::arithmetic::div_mod::lemma_fundamental_div_mod_converse(107334267398528, 4294967296, 24990, 3034671488);
        lemma_encoded_is(24990, 166, 255);
    } else if b == 167 {
        vstd::arithmetic::div_mod::lemma_fundamental_div_mod_converse(108770727490688, 4294967296, 25325, 680719488);
        lemma_encoded_is(25325, 167, 255);
    } else if b == 168 {
        vstd::arithmetic::div_mod::lemma_fundamental_div_mod_converse(110218344261248, 4294967296, 25662, 893511296);
        lemma_encoded_is(25662, 168, 255);
    } else if b == 169 {
        vstd::arithmetic::div_mod::lemma_fundamental_div_mod_converse(111677134487168, 4294967296, 26001, 3689823872);
        lemma_encoded_is(26001, 169, 255);
    } else if b == 170 {
        vstd::arithmetic::div_mod::lemma_fundamental_div_mod_converse(113147131722368, 4294967296, 26344, 513276544);
        lemma_encoded_is(26344, 170, 255);
    } else if b == 171 {
        vstd::arithmetic::div_mod::lemma_fundamental_div_mod_converse(114628352743808, 4294967296, 26688, 4265548160);
        lemma_encoded_is(26688, 171, 255);
    } else if b == 172 {
        vstd::arithmetic::div_mod::lemma_fundamental_div_mod_converse(116120822716928, 4294967296, 27036, 2086902272);
        lemma_encoded_is(27036, 172, 255);
    } else if b == 173 {
        vstd::arithmetic::div_mod::lemma_fundamental_div_mod_converse(117624566807168, 4294967296, 27386, 2592438912);
        lemma_encoded_is(27386, 173, 255);
    } else if b == 174 {
        vstd::arithmetic::div_mod::lemma_fundamental_div_mod_converse(119139610179968, 4294967296, 27739, 1512356224);
        lemma_encoded_is(27739, 174, 255);
    } else if b == 175 {
        vstd::arithmetic::div_mod::lemma_fundamental_div_mod_converse(120665969612288, 4294967296, 28094, 3158398464);
        lemma_encoded_is(28094, 175, 255);
    } else if b == 176 {
        vstd::arithmetic::div_mod::lemma_fundamental_div_mod_converse(122203687046528, 4294967296, 28452, 3277540736);
        lemma_encoded_is(28452, 176, 255);
    } else if b == 177 {
        vstd::arithmetic::div_mod::lemma_fundamental_div_mod_converse(123752770871168, 4294967296, 28813, 1878171520);
        lemma_encoded_is(28813, 177, 255);
    } else if b == 178 {
        vstd::arithmetic::div_mod::lemma_fundamental_div_mod_converse(125313246251648, 4294967296, 29176, 3280423552);
        lemma_encoded_is(29176, 178, 255);
    } else if b == 179 {
        vstd::arithmetic::div_mod::lemma_fundamental_div_mod_converse(126885146741888, 4294967296, 29542, 3222883456);
        lemma_encoded_is(29542, 179, 255);
    } else if b == 180 {
        vstd::arithmetic::div_mod::lemma_fundamental_div_mod_converse(128468480730368, 4294967296, 29911, 1713939712);
        lemma_encoded_is(29911, 180, 255);
    } else if b == 181 {
        vstd::arithmetic::div_mod::lemma_fundamental_div_mod_converse(130063290159488, 4294967296, 30282, 3090502016);
        lemma_encoded_is(30282, 181, 255);
    } else if b == 182 {
        vstd::arithmetic::div_mod::lemma_fundamental_div_mod_converse(131669583417728, 4294967296, 30656, 3065991552);
        lemma_encoded_is(30656, 182, 255);
    } else if b == 183 {
        vstd::arithmetic::div_mod::lemma_fundamental_div_mod_converse(133287394059008, 4294967296, 31033, 1673962240);
        lemma_encoded_is(31033, 183, 255);
    } else if b == 184 {
        vstd::arithmetic::div_mod::lemma_fundamental_div_mod_converse(134916738860288, 4294967296, 31412, 3226158336);
        lemma_encoded_is(31412, 184, 255);
    } else if b == 185 {
        vstd::arithmetic::div_mod::lemma_fundamental_div_mod_converse(136557642987008, 4294967296, 31794, 3452777984);
        lemma_encoded_is(31794, 185, 255);
    } else if b == 186 {
        vstd::arithmetic::div_mod::lemma_fundamental_div_mod_converse(138210131604608, 4294967296, 32179, 2378986624);
        lemma_encoded_is(32179, 186, 255);
    } else if b == 187 {
        vstd::arithmetic::div_mod::lemma_fundamental_div_mod_converse(139874229878528, 4294967296, 32567, 29949696);
        lemma_encoded_is(32567, 187, 255);
    } else if b == 188 {
        vstd::arithmetic::div_mod::lemma_fundamental_div_mod_converse(141549979751168, 4294967296, 32957, 742576896);
        lemma_encoded_is(32957, 188, 255);
    } else if b == 189 {
        vstd::arithmetic::div_mod::lemma_fundamental_div_mod_converse(143237356057088, 4294967296, 33350, 196735488);
        lemma_encoded_is(33350, 189, 255);
    } else if b == 190 {
        vstd::arithmetic::div_mod::lemma_fundamental_div_mod_converse(144936409127168, 4294967296, 33745, 2737723648);
        lemma_encoded_is(33745, 190, 255);
    } else if b == 191 {
        vstd::arithmetic::div_mod::lemma_fundamental_div_mod_converse(146647155738368, 4294967296, 34143, 4087351040);
        lemma_encoded_is(34143, 191, 255);
    }
}

proof fn lemma_round_trip_6(b: u8)
    requires
        192 <= b < 224,
    ensures
        srgb_encoded(linear_level(srgb_linear(b), 1)) == b,
{
    if b == 192 {
        vstd::arithmetic::div_mod::lemma_fundamental_div_mod_converse(148369629444608, 4294967296, 34544, 4279171584);
        lemma_encoded_is(34544, 192, 255);
    } else if b == 193 {
        vstd::arithmetic::div_mod::lemma_fundamental_div_mod_converse(150103847022848, 4294967296, 34948, 3329962240);
        lemma_encoded_is(34948, 193, 255);
    } else if b == 194 {
        vstd::arithmetic::div_mod::lemma_fundamental_div_mod_converse(151849842027008, 4294967296, 35355, 1273276928);
        lemma_encoded_is(35355, 194, 255);
    } else if b == 195 {
        vstd::arithmetic::div_mod::lemma_fundamental_div_mod_converse(153607614457088, 4294967296, 35764, 2404082944);
        lemma_encoded_is(35764, 195, 255);
    } else if b == 196 {
        vstd::arithmetic::div_mod::lemma_fundamental_div_mod_converse(155377197867008, 4294967296, 36176, 2460966912);
        lemma_encoded_is(36176, 196, 255);
    } else if b == 197 {
        vstd::arithmetic::div_mod::lemma_fundamental_div_mod_converse(157158625810688, 4294967296, 36591, 1477482752);
        lemma_encoded_is(36591, 197, 255);
    } else if b == 198 {
        vstd::arithmetic::div_mod::lemma_fundamental_div_mod_converse(158951915065088, 4294967296, 37008, 3765374720);
        lemma_encoded_is(37008, 198, 255);
    } else if b == 199 {
        vstd::arithmetic::div_mod::lemma_fundamental_div_mod_converse(160757065630208, 4294967296, 37429, 734708224);
        lemma_encoded_is(37429, 199, 255);
    } else if b == 200 {
        vstd::arithmetic::div_mod::lemma_fundamental_div_mod_converse(162574127836928, 4294967296, 37852, 1025748736);
        lemma_encoded_is(37852, 200, 255);
    } else if b == 201 {
        vstd::arithmetic::div_mod::lemma_fundamental_div_mod_converse(164403118462208, 4294967296, 38278, 360305920);
        lemma_encoded_is(38278, 201, 255);
    } else if b == 202 {
        vstd::arithmetic::div_mod::lemma_fundamental_div_mod_converse(166244054283008, 4294967296, 38706, 3050124032);
        lemma_encoded_is(38706, 202, 255);
    } else if b == 203 {
        vstd::arithmetic::div_mod::lemma_fundamental_div_mod_converse(168096968853248, 4294967296, 39138, 538822400);
        lemma_encoded_is(39138, 203, 255);
    } else if b == 204 {
        vstd::arithmetic::div_mod::lemma_fundamental_div_mod_converse(169961862172928, 4294967296, 39572, 1416335616);
        lemma_encoded_is(39572, 204, 255);
    } else if b == 205 {
        vstd::arithmetic::div_mod::lemma_fundamental_div_mod_converse(171838767795968, 4294967296, 40009, 1421250304);
        lemma_encoded_is(40009, 205, 255);
    } else if b == 206 {
        vstd::arithmetic::div_mod::lemma_fundamental_div_mod_converse(173727719276288, 4294967296, 40449, 587120384);
        lemma_encoded_is(40449, 206, 255);
    } else if b == 207 {
        vstd::arithmetic::div_mod::lemma_fundamental_div_mod_converse(175628716613888, 4294967296, 40891, 3208913152);
        lemma_encoded_is(40891, 207, 255);
    } else if b == 208 {
        vstd::arithmetic::div_mod::lemma_fundamental_div_mod_converse(177541810139648, 4294967296, 41337, 747024896);
        lemma_encoded_is(41337, 208, 255);
    } else if b == 209 {
        vstd::arithmetic::div_mod::lemma_fundamental_div_mod_converse(179466999853568, 4294967296, 41785, 1791390208);
        lemma_encoded_is(41785, 209, 255);
    } else if b == 210 {
        vstd::arithmetic::div_mod::lemma_fundamental_div_mod_converse(181404302532608, 4294967296, 42236, 2063818752);
        lemma_encoded_is(42236, 210, 255);
    } else if b == 211 {
        vstd::arithmetic::div_mod::lemma_fundamental_div_mod_converse(183353751730688, 4294967296, 42690, 1597864448);
        lemma_encoded_is(42690, 211, 255);
    } else if b == 212 {
        vstd::arithmetic::div_mod::lemma_fundamental_div_mod_converse(185315364224768, 4294967296, 43147, 410304256);
        lemma_encoded_is(43147, 212, 255);
    } else if b == 213 {
        vstd::arithmetic::div_mod::lemma_fundamental_div_mod_converse(187289173568768, 4294967296, 43606, 2829659392);
        lemma_encoded_is(43606, 213, 255);
    } else if b == 214 {
        vstd::arithmetic::div_mod::lemma_fundamental_div_mod_converse(189275196539648, 4294967296, 44069, 282772224);
        lemma_encoded_is(44069, 214, 255);
    } else if b == 215 {
        vstd::arithmetic::div_mod::lemma_fundamental_div_mod_converse(191273449914368, 4294967296, 44534, 1376354304);
        lemma_encoded_is(44534, 215, 255);
    } else if b == 216 {
        vstd::arithmetic::div_mod::lemma_fundamental_div_mod_converse(193283967246848, 4294967296, 45002, 1848992256);
        lemma_encoded_is(45002, 216, 255);
    } else if b == 217 {
        vstd::arithmetic::div_mod::lemma_fundamental_div_mod_converse(195306748537088, 4294967296, 45473, 1700686080);
        lemma_encoded_is(45473, 217, 255);
    } else if b == 218 {
        vstd::arithmetic::div_mod::lemma_fundamental_div_mod_converse(197341810562048, 4294967296, 45947, 948212736);
        lemma_encoded_is(45947, 218, 255);
    } else if b == 219 {
        vstd::arithmetic::div_mod::lemma_fundamental_div_mod_converse(199389203652608, 4294967296, 46423, 3936870400);
        lemma_encoded_is(46423, 219, 255);
    } else if b == 220 {
        vstd::arithmetic::div_mod::lemma_fundamental_div_mod_converse(201448927808768, 4294967296, 46903, 2076724480);
        lemma_encoded_is(46903, 220, 255);
    } else if b == 221 {
        vstd::arithmetic::div_mod::lemma_fundamental_div_mod_converse(203520999807488, 4294967296, 47385, 3974486528);
        lemma_encoded_is(47385, 221, 255);
    } else if b == 222 {
        vstd::arithmetic::div_mod::lemma_fundamental_div_mod_converse(205605469979648, 4294967296, 47871, 1090552832);
        lemma_encoded_is(47871, 222, 255);
    } else if b == 223 {
        vstd::arithmetic::div_mod::lemma_fundamental_div_mod_converse(207702338325248, 4294967296, 48359, 2014857984);
        lemma_encoded_is(48359, 223, 255);
    }
}

proof fn lemma_round_trip_7(b: u8)
    requires
        224 <= b < 256,
    ensures
        srgb_encoded(linear_level(srgb_linear(b), 1)) == b,
{
    if b == 224 {
        vstd::arithmetic::div_mod::lemma_fundamental_div_mod_converse(209811621621248, 4294967296, 48850, 2469211648);
        lemma_encoded_is(48850, 224, 255);
    } else if b == 225 {
        vstd::arithmetic::div_mod::lemma_fundamental_div_mod_converse(211933336644608, 4294967296, 49344, 2470390784);
        lemma_encoded_is(49344, 225, 255);
    } else if b == 226 {
        vstd::arithmetic::div_mod::lemma_fundamental_div_mod_converse(214067533726208, 4294967296, 49841, 2068726272);
        lemma_encoded_is(49841, 226, 255);
    } else if b == 227 {
        vstd::arithmetic::div_mod::lemma_fundamental_div_mod_converse(216214212866048, 4294967296, 50341, 1264218112);
        lemma_encoded_is(50341, 227, 255);
    } else if b == 228 {
        vstd::arithmetic::div_mod::lemma_fundamental_div_mod_converse(218373390841088, 4294967296, 50844, 73643264);
        lemma_encoded_is(50844, 228, 255);
    } else if b == 229 {
        vstd::arithmetic::div_mod::lemma_fundamental_div_mod_converse(220545101205248, 4294967296, 51349, 2825522944);
        lemma_encoded_is(51349, 229, 255);
    } else if b == 230 {
        vstd::arithmetic::div_mod::lemma_fundamental_div_mod_converse(222729343958528, 4294967296, 51858, 929922560);
        lemma_encoded_is(51858, 230, 255);
    } else if b == 231 {
        vstd::arithmetic::div_mod::lemma_fundamental_div_mod_converse(224926169431808, 4294967296, 52369, 3027107584);
        lemma_encoded_is(52369, 231, 255);
    } else if b == 232 {
        vstd::arithmetic::div_mod::lemma_fundamental_div_mod_converse(227135577625088, 4294967296, 52884, 527143424);
        lemma_encoded_is(52884, 232, 255);
    } else if b == 233 {
        vstd::arithmetic::div_mod::lemma_fundamental_div_mod_converse(229357602092288, 4294967296, 53401, 2053518592);
        lemma_encoded_is(53401, 233, 255);
    } else if b == 234 {
        vstd::arithmetic::div_mod::lemma_fundamental_div_mod_converse(231592242833408, 4294967296, 53921, 3311265792);
        lemma_encoded_is(53921, 234, 255);
    } else if b == 235 {
        vstd::arithmetic::div_mod::lemma_fundamental_div_mod_converse(233839533402368, 4294967296, 54445, 38971648);
        lemma_encoded_is(54445, 235, 255);
    } else if b == 236 {
        vstd::arithmetic::div_mod::lemma_fundamental_div_mod_converse(236099507353088, 4294967296, 54971, 860124672);
        lemma_encoded_is(54971, 236, 255);
    } else if b == 237 {
        vstd::arithmetic::div_mod::lemma_fundamental_div_mod_converse(238372147908608, 4294967296, 55500, 1462980608);
        lemma_encoded_is(55500, 237, 255);
    } else if b == 238 {
        vstd::arithmetic::div_mod::lemma_fundamental_div_mod_converse(240657522176768, 4294967296, 56032, 1914647296);
        lemma_encoded_is(56032, 238, 255);
    } else if b == 239 {
        vstd::arithmetic::div_mod::lemma_fundamental_div_mod_converse(242955613380608, 4294967296, 56567, 2198347776);
        lemma_encoded_is(56567, 239, 255);
    } else if b == 240 {
        vstd::arithmetic::div_mod::lemma_fundamental_div_mod_converse(245266471851008, 4294967296, 57105, 2364412928);
        lemma_encoded_is(57105, 240, 255);
    } else if b == 241 {
        vstd::arithmetic::div_mod::lemma_fundamental_div_mod_converse(247590047257088, 4294967296, 57646, 2362511872);
        lemma_encoded_is(57646, 241, 255);
    } else if b == 242 {
        vstd::arithmetic::div_mod::lemma_fundamental_div_mod_converse(249926490591488, 4294967296, 58190, 2343637248);
        lemma_encoded_is(58190, 242, 255);
    } else if b == 243 {
        vstd::arithmetic::div_mod::lemma_fundamental_div_mod_converse(252275701192448, 4294967296, 58737, 2207127296);
        lemma_encoded_is(58737, 243, 255);
    } else if b == 244 {
        vstd::arithmetic::div_mod::lemma_fundamental_div_mod_converse(254637796498688, 4294967296, 59287, 2070420736);
        lemma_encoded_is(59287, 244, 255);
    } else if b == 245 {
        vstd::arithmetic::div_mod::lemma_fundamental_div_mod_converse(257012659071488, 4294967296, 59840, 1816078848);
        lemma_encoded_is(59840, 245, 255);
    } else if b == 246 {
        vstd::arithmetic::div_mod::lemma_fundamental_div_mod_converse(259400473457408, 4294967296, 60396, 1628648192);
        lemma_encoded_is(60396, 246, 255);
    } else if b == 247 {
        vstd::arithmetic::div_mod::lemma_fundamental_div_mod_converse(261801088663808, 4294967296, 60955, 1357136128);
        lemma_encoded_is(60955, 247, 255);
    } else if b == 248 {
        vstd::arithmetic::div_mod::lemma_fundamental_div_mod_converse(264214706014208, 4294967296, 61517, 1202866176);
        lemma_encoded_is(61517, 248, 255);
    } else if b == 249 {
        vstd::arithmetic::div_mod::lemma_fundamental_div_mod_converse(266641174515968, 4294967296, 62082, 1014845696);
        lemma_encoded_is(62082, 249, 255);
    } else if b == 250 {
        vstd::arithmetic::div_mod::lemma_fundamental_div_mod_converse(269080661938688, 4294967296, 62650, 960844288);
        lemma_encoded_is(62650, 250, 255);
    } else if b == 251 {
        vstd::arithmetic::div_mod::lemma_fundamental_div_mod_converse(271533050843648, 4294967296, 63221, 923423232);
        lemma_encoded_is(63221, 251, 255);
    } else if b == 252 {
        vstd::arithmetic::div_mod::lemma_fundamental_div_mod_converse(273998509000448, 4294967296, 63795, 1070352128);
        lemma_encoded_is(63795, 252, 255);
    } else if b == 253 {
        vstd::arithmetic::div_mod::lemma_fundamental_div_mod_converse(276476885416448, 4294967296, 64372, 1250638336);
        lemma_encoded_is(64372, 253, 255);
    } else if b == 254 {
        vstd::arithmetic::div_mod::lemma_fundamental_div_mod_converse(278968364638208, 4294967296, 64952, 1648828416);
        lemma_encoded_is(64952, 254, 255);
    } else if b == 255 {
        vstd::arithmetic::div_mod::lemma_fundamental_div_mod_converse(281472829227008, 4294967296, 65535, 2147483648);
        lemma_encoded_is(65535, 255, 255);
    }
}

/// Decoding an sRGB byte to linear light and encoding it back, with the
/// intensity quantised to the nearest of the 65536 levels, gives the byte back.
pub proof fn law_srgb_round_trip(b: u8)
    ensures
        srgb_encoded(linear_level(srgb_linear(b), 1)) == b,
{
    if b < 32 {
        lemma_round_trip_0(b);
    } else if b < 64 {
        lemma_round_trip_1(b);
    } else if b < 96 {
        lemma_round_trip_2(b);
    } else if b < 128 {
        lemma_round_trip_3(b);
    } else if b < 160 {
        lemma_round_trip_4(b);
    } else if b < 192 {
        lemma_round_trip_5(b);
    } else if b < 224 {
        lemma_round_trip_6(b);
    } else if b < 256 {
        lemma_round_trip_7(b);
    }
}

} // verus!
