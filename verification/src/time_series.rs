use vstd::prelude::*;

verus! {

// Annual series taken from the 2021 edition of Simba's backtesting
// spreadsheet (Bogleheads wiki), stored exactly: every published value has
// two decimal places, so hundredths of a percent hold it without loss.

/// First calendar year of every historical series.
pub const FIRST_YEAR: usize = 1871;

/// Number of calendar years every historical series covers.
pub const YEARS: usize = 150;

/// Annual inflation, one value per calendar year.  Units: hundredths of a percent.
pub const INFLATION: [i64; YEARS] = [
    153, 226, -441, -692, -579, 88, -1565, -1031, 2069, -571, 808, -187, -762, -1031, -345, 0,
    476, -455, -476, 250, -610, 779, -1325, -417, 145, -286, 294, 143, 1690, -241, 247, 964,
    -440, 230, 0, 449, -215, 330, 1064, -673, -103, 729, 204, 100, 297, 1250, 1966, 1786, 1697,
    -155, -1105, -59, 298, 0, 347, -223, -114, -116, 0, -702, -1006, -979, 233, 303, 147, 217,
    286, -278, 0, 71, 993, 903, 296, 230, 225, 1813, 884, 299, -207, 593, 600, 75, 75, -74, 37,
    299, 290, 176, 173, 136, 67, 133, 164, 97, 192, 346, 304, 472, 620, 557, 327, 341, 871,
    1234, 694, 486, 670, 902, 1329, 1252, 892, 383, 379, 395, 380, 110, 443, 442, 465, 611, 306,
    290, 275, 267, 254, 332, 170, 161, 268, 339, 155, 238, 188, 326, 342, 254, 408, 9, 272, 150,
    296, 174, 150, 76, 73, 207, 211, 191, 229, 136
];

/// Annual nominal returns of a large-cap blend portfolio.  Units: hundredths of a percent.
pub const LARGE_CAP_BLEND: [i64; YEARS] = [
    1386, 874, 199, 1246, 1178, -1495, 1693, 2956, 2375, 3431, -723, 554, 227, -234, 3448, 1190,
    -518, 817, 1237, -848, 2655, -156, -643, 801, 342, 621, 1689, 2747, -1134, 2389, 1654, -127,
    -1331, 2908, 2126, -367, -2255, 3492, 497, 355, 456, -14, -668, -644, 2738, -383, -3195, 14,
    223, -1265, 2371, 2984, 237, 2707, 2160, 1407, 3436, 3999, -854, -2164, -3740, 49, 4611,
    -249, 4401, 2905, -3657, 3444, -42, -1045, -1960, 1015, 2197, 1680, 3326, -2217, -298, 226,
    2107, 2404, 1690, 1723, -172, 5335, 3086, 336, -1327, 4062, 1001, -93, 2598, -990, 2073,
    1527, 1029, -1307, 2018, 599, -1378, -163, 1064, 1503, -2155, -3457, 2828, 1813, -1363,
    -289, 420, 1724, -1297, 1651, 1686, 218, 2643, 1678, 26, 1130, 2553, -889, 2635, 440, 695,
    -146, 3404, 1893, 3096, 2658, 1790, -1202, -1332, -2391, 2622, 733, 141, 1288, 133, -3703,
    2327, 1335, -85, 1398, 3038, 1279, 63, 965, 1927, -622, 2852, 1678
];

/// Annual real (inflation-adjusted) returns of the total stock market.  Units: hundredths of a percent.
pub const TOTAL_STOCK_MARKET: [i64; YEARS] = [
    1386, 874, 199, 1246, 1178, -1495, 1693, 2956, 2375, 3431, -723, 554, 227, -234, 3448, 1190,
    -518, 817, 1237, -848, 2655, -156, -643, 801, 342, 621, 1689, 2747, -1134, 2389, 1654, -127,
    -1331, 2908, 2126, -367, -2255, 3492, 497, 355, 456, -14, -668, -644, 2738, -383, -3195, 14,
    223, -1265, 2371, 2984, 237, 2707, 2160, 1407, 3488, 4032, -1129, -2294, -3787, 126, 5362,
    -70, 4418, 3079, -3666, 3206, 235, -783, -1823, 704, 2423, 1850, 3519, -2066, -459, -60,
    2253, 2303, 1391, 1280, -9, 5170, 2526, 536, -1246, 4232, 1086, -43, 2608, -1079, 1920,
    1529, 1212, -1181, 2359, 809, -1551, -443, 1391, 1405, -2507, -3628, 2944, 2067, -879, 20,
    1078, 1875, -1167, 1429, 1891, -91, 2766, 1479, -211, 1290, 2339, -1162, 3016, 585, 767,
    -277, 3242, 1707, 2880, 2131, 2058, -1349, -1225, -2279, 2899, 906, 258, 1276, 143, -3705,
    2541, 1553, -183, 1439, 3155, 1171, -34, 1037, 1867, -695, 2788, 1936
];

/// Annual real returns of the total bond market.  Units: hundredths of a percent.
pub const TOTAL_BOND_MARKET: [i64; YEARS] = [
    122, -44, 908, 2218, 1303, 626, 2289, 1868, -1470, 1166, -424, 505, 1291, 1589, 910, 77,
    -315, 1054, 764, -121, 1226, -527, 2075, 1071, -138, 714, 282, 319, -1478, 642, -61, -792,
    691, 344, 66, -360, 187, 786, -832, 1169, 516, -532, 181, 543, 319, -786, -1784, -1121,
    -1259, 179, 2725, 613, 74, 784, -28, 709, 651, 25, 426, 1587, 888, 2444, 65, 411, 237, 232,
    -94, 732, 311, 356, -698, -705, -45, 1, 280, -1475, -854, -38, 658, -572, -560, 144, 288,
    360, -116, -439, 553, -448, -336, 1151, 64, 432, 4, 285, -117, 146, -345, -175, -783, 1103,
    605, -26, -483, -475, 101, 1018, -348, -704, -1008, -877, -250, 2767, 435, 1072, 1758, 1396,
    -278, 281, 860, 240, 1182, 412, 675, -519, 1526, 25, 761, 686, -335, 774, 678, 580, 212,
    104, -90, 178, 282, 505, 323, 497, 459, 237, -359, 510, -33, 51, 142, -190, 629, 627
];

/// Annual real returns of short-term treasuries.  Units: hundredths of a percent.
pub const SHORT_TERM_TREASURIES: [i64; YEARS] = [
    215, 298, 1363, 2210, 1118, 544, 2318, 1864, -1438, 1172, -381, 669, 1491, 1731, 884, 193,
    -1, 1106, 800, 159, 1404, -481, 2435, 930, -92, 875, 209, 287, -1384, 727, 81, -620, 968,
    352, 188, -93, 591, 644, -788, 1308, 515, -449, 342, 523, 191, -867, -1525, -1065, -1105,
    511, 2468, 563, 121, 621, -77, 650, 573, 286, 572, 1502, 1201, 1921, -13, -24, 1, -66, -177,
    490, 108, 68, -787, -764, -139, -109, -73, -1445, -728, -152, 392, -500, -484, 110, 238,
    324, -9, -153, 255, -8, -29, 718, 180, 282, 76, 291, 52, 165, 61, -2, -254, 753, 425, 49,
    -378, -479, 183, 313, -274, -507, -481, -309, 352, 1665, 506, 931, 954, 883, 117, 161, 585,
    331, 827, 323, 248, -218, 804, 161, 480, 525, 14, 444, 666, 334, -3, -234, -180, 128, 303,
    650, -194, 69, -146, -135, -119, -25, -22, -127, -168, -44, 120, 170
];

/// Annual real returns of intermediate-term treasuries.  Units: hundredths of a percent.
pub const INTERMEDIATE_TERM_TREASURIES: [i64; YEARS] = [
    120, -46, 905, 2215, 1301, 624, 2287, 1866, -1472, 1164, -426, 503, 1289, 1586, 908, 75,
    -317, 1052, 762, -123, 1224, -528, 2072, 1068, -140, 711, 279, 317, -1480, 640, -63, -794,
    689, 342, 64, -362, 185, 784, -834, 1167, 514, -534, 179, 541, 317, -788, -1785, -1122,
    -1260, 177, 2722, 611, 72, 782, -30, 707, 649, 23, 424, 1585, 885, 2442, 63, 409, 235, 230,
    -96, 729, 309, 354, -699, -707, -47, -1, 278, -1477, -856, -40, 656, -574, -562, 142, 286,
    358, -118, -441, 551, -450, -338, 1149, 62, 430, 2, 283, -119, 144, -347, -177, -785, 1101,
    603, -28, -432, -707, -41, 943, -536, -792, -857, -1068, -228, 2935, 42, 1053, 2015, 1614,
    -378, 181, 997, 220, 1399, 422, 832, -742, 1739, -138, 783, 988, -652, 1012, 616, 1134, 34,
    -27, -192, 56, 567, 1456, -561, 538, 651, 88, -418, 343, 92, -96, -47, -60, 389, 620
];

/// Annual real returns of long-term treasuries.  Units: hundredths of a percent.
pub const LONG_TERM_TREASURIES: [i64; YEARS] = [
    543, 83, 793, 1728, 1944, 804, 2560, 1782, -1240, 1452, -129, 640, 1160, 1615, 986, 379,
    -580, 1074, 1253, -260, 953, -320, 1655, 1153, 167, 655, 412, 449, -1208, 616, -66, -707,
    458, 253, 249, -421, -101, 623, -737, 921, 503, -423, 54, 372, 316, -531, -2074, -992,
    -1371, 177, 3172, 685, 122, 928, 269, 970, 992, -5, 485, 1415, 147, 2888, -237, 870, 322,
    544, -280, 837, 465, 775, -798, -543, -76, 53, 592, -1484, -1029, 59, 923, -660, -957, 63,
    144, 641, -247, -856, 570, -836, -684, 1343, -124, 489, -145, 277, -212, 44, -1033, -439,
    -1134, 778, 907, 142, -703, -658, 123, 1159, -639, -966, -1227, -1380, -791, 3644, -181,
    1035, 2666, 2266, -687, 449, 1358, 11, 1488, 484, 1403, -1011, 2737, -413, 1307, 1164,
    -1119, 1625, 255, 1400, 52, 424, 291, -74, 543, 2383, -1529, 778, 2517, 172, -1403, 2409,
    -206, -76, 644, -351, 1174, 1611
];

/// Annual real returns of short-term bonds.  Units: hundredths of a percent.
pub const SHORT_TERM_BONDS: [i64; YEARS] = [
    134, 177, 1271, 2378, 1126, 582, 2280, 1904, -1475, 1170, -412, 623, 1476, 1710, 910, 117,
    -65, 1124, 749, 89, 1420, -521, 2420, 983, -166, 860, 247, 302, -1460, 726, 40, -683, 918,
    390, 118, -173, 480, 784, -831, 1303, 517, -503, 318, 570, 241, -873, -1619, -1081, -1154,
    380, 2613, 584, 101, 693, -98, 658, 592, 181, 553, 1597, 1115, 2112, 16, 75, 50, -9, -162,
    550, 145, 120, -762, -772, -94, -77, -4, -1450, -754, -120, 471, -515, -518, 113, 256, 341,
    -52, -229, 337, -121, -97, 838, 162, 331, 47, 293, -12, 159, -23, -44, -429, 908, 478, 7,
    -386, -530, 147, 565, -296, -562, -554, -424, 255, 1898, 491, 977, 1122, 1010, 48, 172, 666,
    331, 970, 374, 416, -337, 1009, 119, 525, 592, -59, 528, 722, 369, 152, -144, -197, 158,
    310, 541, 162, 250, 11, 30, -132, 50, 19, -57, -91, -55, 251, 328
];

/// Annual real returns of intermediate-term bonds.  Units: hundredths of a percent.
pub const INTERMEDIATE_TERM_BONDS: [i64; YEARS] = [
    145, -84, 816, 2111, 1356, 628, 2300, 1842, -1460, 1163, -420, 476, 1231, 1552, 900, 87,
    -385, 1022, 782, -173, 1147, -518, 1962, 1081, -105, 665, 279, 317, -1464, 610, -85, -811,
    625, 312, 69, -400, 121, 737, -819, 1120, 512, -528, 140, 515, 327, -756, -1813, -1131,
    -1281, 149, 2712, 614, 69, 790, -1, 721, 662, 0, 384, 1549, 831, 2496, 70, 495, 285, 299,
    -76, 778, 358, 422, -685, -680, -45, 17, 358, -1485, -885, -20, 698, -591, -566, 151, 290,
    358, -127, -492, 598, -528, -399, 1217, 33, 449, -5, 279, -136, 141, -431, -209, -845, 1108,
    625, -27, -443, -748, -90, 978, -432, -819, -906, -883, -295, 2678, 323, 1022, 1994, 1570,
    -344, 286, 968, 187, 1413, 480, 916, -706, 1804, -75, 758, 835, -554, 908, 762, 833, 375,
    198, -154, 140, 348, 492, 406, 787, 755, 519, -488, 615, 54, 74, 170, -204, 772, 832
];

} // verus!
