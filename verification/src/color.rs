//! Color-space conversion between 8-bit sRGB samples and linear light,
//! in fixed-point arithmetic at scale 65536.
//!
//! `srgb_table` holds, for each 8-bit sRGB sample, the linear-light value
//! `round(65536 * l)` of the standard electro-optical transfer function:
//! `l = s/12.92` for `s <= 0.04045` and `l = ((s + 0.055)/1.055)^2.4` above
//! it, where `s` is the sample scaled to [0, 1]. `srgb_cut` holds, for each
//! output level `b` of the inverse transform, the least scaled linear value
//! that converts to `b` under the standard formula with its `+0.5`-then-
//! truncate rounding; the inverse conversion returns the level whose bucket
//! the input falls in, clamping below the first cut to 0 and above the last
//! to 255.

use vstd::prelude::*;

verus! {

/// The fixed-point scale: all linear-light values are integers in units of
/// 1/65536.
pub const SCALE: i64 = 65536;

/// Linear-light value of an 8-bit sRGB sample, in units of 1/65536.
pub open spec fn srgb_table(b: int) -> int {
    if b == 0 {
        0
    } else if b == 1 {
        20
    } else if b == 2 {
        40
    } else if b == 3 {
        60
    } else if b == 4 {
        80
    } else if b == 5 {
        99
    } else if b == 6 {
        119
    } else if b == 7 {
        139
    } else if b == 8 {
        159
    } else if b == 9 {
        179
    } else if b == 10 {
        199
    } else if b == 11 {
        219
    } else if b == 12 {
        241
    } else if b == 13 {
        264
    } else if b == 14 {
        288
    } else if b == 15 {
        313
    } else if b == 16 {
        340
    } else if b == 17 {
        367
    } else if b == 18 {
        396
    } else if b == 19 {
        427
    } else if b == 20 {
        458
    } else if b == 21 {
        491
    } else if b == 22 {
        526
    } else if b == 23 {
        562
    } else if b == 24 {
        599
    } else if b == 25 {
        637
    } else if b == 26 {
        677
    } else if b == 27 {
        718
    } else if b == 28 {
        761
    } else if b == 29 {
        805
    } else if b == 30 {
        851
    } else if b == 31 {
        898
    } else if b == 32 {
        947
    } else if b == 33 {
        997
    } else if b == 34 {
        1048
    } else if b == 35 {
        1101
    } else if b == 36 {
        1156
    } else if b == 37 {
        1212
    } else if b == 38 {
        1270
    } else if b == 39 {
        1330
    } else if b == 40 {
        1391
    } else if b == 41 {
        1453
    } else if b == 42 {
        1517
    } else if b == 43 {
        1583
    } else if b == 44 {
        1651
    } else if b == 45 {
        1720
    } else if b == 46 {
        1791
    } else if b == 47 {
        1863
    } else if b == 48 {
        1937
    } else if b == 49 {
        2013
    } else if b == 50 {
        2090
    } else if b == 51 {
        2170
    } else if b == 52 {
        2250
    } else if b == 53 {
        2333
    } else if b == 54 {
        2418
    } else if b == 55 {
        2504
    } else if b == 56 {
        2592
    } else if b == 57 {
        2681
    } else if b == 58 {
        2773
    } else if b == 59 {
        2866
    } else if b == 60 {
        2961
    } else if b == 61 {
        3058
    } else if b == 62 {
        3157
    } else if b == 63 {
        3258
    } else if b == 64 {
        3360
    } else if b == 65 {
        3464
    } else if b == 66 {
        3570
    } else if b == 67 {
        3678
    } else if b == 68 {
        3788
    } else if b == 69 {
        3900
    } else if b == 70 {
        4014
    } else if b == 71 {
        4129
    } else if b == 72 {
        4247
    } else if b == 73 {
        4366
    } else if b == 74 {
        4488
    } else if b == 75 {
        4611
    } else if b == 76 {
        4736
    } else if b == 77 {
        4864
    } else if b == 78 {
        4993
    } else if b == 79 {
        5124
    } else if b == 80 {
        5257
    } else if b == 81 {
        5392
    } else if b == 82 {
        5530
    } else if b == 83 {
        5669
    } else if b == 84 {
        5810
    } else if b == 85 {
        5953
    } else if b == 86 {
        6099
    } else if b == 87 {
        6246
    } else if b == 88 {
        6395
    } else if b == 89 {
        6547
    } else if b == 90 {
        6701
    } else if b == 91 {
        6856
    } else if b == 92 {
        7014
    } else if b == 93 {
        7174
    } else if b == 94 {
        7336
    } else if b == 95 {
        7500
    } else if b == 96 {
        7666
    } else if b == 97 {
        7834
    } else if b == 98 {
        8004
    } else if b == 99 {
        8177
    } else if b == 100 {
        8352
    } else if b == 101 {
        8529
    } else if b == 102 {
        8708
    } else if b == 103 {
        8889
    } else if b == 104 {
        9072
    } else if b == 105 {
        9258
    } else if b == 106 {
        9446
    } else if b == 107 {
        9636
    } else if b == 108 {
        9828
    } else if b == 109 {
        10022
    } else if b == 110 {
        10219
    } else if b == 111 {
        10418
    } else if b == 112 {
        10619
    } else if b == 113 {
        10822
    } else if b == 114 {
        11028
    } else if b == 115 {
        11236
    } else if b == 116 {
        11446
    } else if b == 117 {
        11658
    } else if b == 118 {
        11873
    } else if b == 119 {
        12090
    } else if b == 120 {
        12309
    } else if b == 121 {
        12531
    } else if b == 122 {
        12754
    } else if b == 123 {
        12981
    } else if b == 124 {
        13209
    } else if b == 125 {
        13440
    } else if b == 126 {
        13673
    } else if b == 127 {
        13909
    } else if b == 128 {
        14147
    } else if b == 129 {
        14387
    } else if b == 130 {
        14629
    } else if b == 131 {
        14874
    } else if b == 132 {
        15122
    } else if b == 133 {
        15372
    } else if b == 134 {
        15624
    } else if b == 135 {
        15878
    } else if b == 136 {
        16135
    } else if b == 137 {
        16394
    } else if b == 138 {
        16656
    } else if b == 139 {
        16920
    } else if b == 140 {
        17187
    } else if b == 141 {
        17456
    } else if b == 142 {
        17727
    } else if b == 143 {
        18001
    } else if b == 144 {
        18278
    } else if b == 145 {
        18556
    } else if b == 146 {
        18838
    } else if b == 147 {
        19121
    } else if b == 148 {
        19408
    } else if b == 149 {
        19696
    } else if b == 150 {
        19988
    } else if b == 151 {
        20281
    } else if b == 152 {
        20578
    } else if b == 153 {
        20876
    } else if b == 154 {
        21178
    } else if b == 155 {
        21481
    } else if b == 156 {
        21788
    } else if b == 157 {
        22096
    } else if b == 158 {
        22408
    } else if b == 159 {
        22722
    } else if b == 160 {
        23038
    } else if b == 161 {
        23357
    } else if b == 162 {
        23679
    } else if b == 163 {
        24003
    } else if b == 164 {
        24329
    } else if b == 165 {
        24659
    } else if b == 166 {
        24991
    } else if b == 167 {
        25325
    } else if b == 168 {
        25662
    } else if b == 169 {
        26002
    } else if b == 170 {
        26344
    } else if b == 171 {
        26689
    } else if b == 172 {
        27036
    } else if b == 173 {
        27387
    } else if b == 174 {
        27739
    } else if b == 175 {
        28095
    } else if b == 176 {
        28453
    } else if b == 177 {
        28813
    } else if b == 178 {
        29177
    } else if b == 179 {
        29543
    } else if b == 180 {
        29911
    } else if b == 181 {
        30283
    } else if b == 182 {
        30657
    } else if b == 183 {
        31033
    } else if b == 184 {
        31413
    } else if b == 185 {
        31795
    } else if b == 186 {
        32180
    } else if b == 187 {
        32567
    } else if b == 188 {
        32957
    } else if b == 189 {
        33350
    } else if b == 190 {
        33746
    } else if b == 191 {
        34144
    } else if b == 192 {
        34545
    } else if b == 193 {
        34949
    } else if b == 194 {
        35355
    } else if b == 195 {
        35765
    } else if b == 196 {
        36177
    } else if b == 197 {
        36591
    } else if b == 198 {
        37009
    } else if b == 199 {
        37429
    } else if b == 200 {
        37852
    } else if b == 201 {
        38278
    } else if b == 202 {
        38707
    } else if b == 203 {
        39138
    } else if b == 204 {
        39572
    } else if b == 205 {
        40009
    } else if b == 206 {
        40449
    } else if b == 207 {
        40892
    } else if b == 208 {
        41337
    } else if b == 209 {
        41786
    } else if b == 210 {
        42237
    } else if b == 211 {
        42691
    } else if b == 212 {
        43147
    } else if b == 213 {
        43607
    } else if b == 214 {
        44069
    } else if b == 215 {
        44534
    } else if b == 216 {
        45003
    } else if b == 217 {
        45474
    } else if b == 218 {
        45947
    } else if b == 219 {
        46424
    } else if b == 220 {
        46904
    } else if b == 221 {
        47386
    } else if b == 222 {
        47871
    } else if b == 223 {
        48360
    } else if b == 224 {
        48851
    } else if b == 225 {
        49345
    } else if b == 226 {
        49842
    } else if b == 227 {
        50342
    } else if b == 228 {
        50844
    } else if b == 229 {
        51350
    } else if b == 230 {
        51859
    } else if b == 231 {
        52370
    } else if b == 232 {
        52884
    } else if b == 233 {
        53402
    } else if b == 234 {
        53922
    } else if b == 235 {
        54445
    } else if b == 236 {
        54972
    } else if b == 237 {
        55501
    } else if b == 238 {
        56033
    } else if b == 239 {
        56568
    } else if b == 240 {
        57106
    } else if b == 241 {
        57647
    } else if b == 242 {
        58191
    } else if b == 243 {
        58738
    } else if b == 244 {
        59288
    } else if b == 245 {
        59841
    } else if b == 246 {
        60397
    } else if b == 247 {
        60956
    } else if b == 248 {
        61518
    } else if b == 249 {
        62083
    } else if b == 250 {
        62651
    } else if b == 251 {
        63222
    } else if b == 252 {
        63796
    } else if b == 253 {
        64373
    } else if b == 254 {
        64953
    } else {
        65536
    }
}

/// Least linear-light value (units of 1/65536) that converts to sRGB level
/// `b`, for `b` in [1, 255].
pub open spec fn srgb_cut(b: int) -> int {
    if b <= 1 {
        10
    } else if b <= 2 {
        30
    } else if b <= 3 {
        50
    } else if b <= 4 {
        70
    } else if b <= 5 {
        90
    } else if b <= 6 {
        110
    } else if b <= 7 {
        130
    } else if b <= 8 {
        150
    } else if b <= 9 {
        170
    } else if b <= 10 {
        189
    } else if b <= 11 {
        209
    } else if b <= 12 {
        230
    } else if b <= 13 {
        253
    } else if b <= 14 {
        276
    } else if b <= 15 {
        301
    } else if b <= 16 {
        327
    } else if b <= 17 {
        354
    } else if b <= 18 {
        382
    } else if b <= 19 {
        412
    } else if b <= 20 {
        443
    } else if b <= 21 {
        475
    } else if b <= 22 {
        509
    } else if b <= 23 {
        544
    } else if b <= 24 {
        580
    } else if b <= 25 {
        618
    } else if b <= 26 {
        657
    } else if b <= 27 {
        698
    } else if b <= 28 {
        740
    } else if b <= 29 {
        783
    } else if b <= 30 {
        828
    } else if b <= 31 {
        875
    } else if b <= 32 {
        923
    } else if b <= 33 {
        972
    } else if b <= 34 {
        1023
    } else if b <= 35 {
        1075
    } else if b <= 36 {
        1129
    } else if b <= 37 {
        1185
    } else if b <= 38 {
        1242
    } else if b <= 39 {
        1300
    } else if b <= 40 {
        1360
    } else if b <= 41 {
        1422
    } else if b <= 42 {
        1486
    } else if b <= 43 {
        1551
    } else if b <= 44 {
        1617
    } else if b <= 45 {
        1685
    } else if b <= 46 {
        1755
    } else if b <= 47 {
        1827
    } else if b <= 48 {
        1900
    } else if b <= 49 {
        1975
    } else if b <= 50 {
        2052
    } else if b <= 51 {
        2130
    } else if b <= 52 {
        2210
    } else if b <= 53 {
        2292
    } else if b <= 54 {
        2376
    } else if b <= 55 {
        2461
    } else if b <= 56 {
        2548
    } else if b <= 57 {
        2637
    } else if b <= 58 {
        2727
    } else if b <= 59 {
        2820
    } else if b <= 60 {
        2914
    } else if b <= 61 {
        3010
    } else if b <= 62 {
        3108
    } else if b <= 63 {
        3208
    } else if b <= 64 {
        3309
    } else if b <= 65 {
        3412
    } else if b <= 66 {
        3518
    } else if b <= 67 {
        3625
    } else if b <= 68 {
        3734
    } else if b <= 69 {
        3844
    } else if b <= 70 {
        3957
    } else if b <= 71 {
        4072
    } else if b <= 72 {
        4188
    } else if b <= 73 {
        4307
    } else if b <= 74 {
        4427
    } else if b <= 75 {
        4550
    } else if b <= 76 {
        4674
    } else if b <= 77 {
        4800
    } else if b <= 78 {
        4929
    } else if b <= 79 {
        5059
    } else if b <= 80 {
        5191
    } else if b <= 81 {
        5325
    } else if b <= 82 {
        5461
    } else if b <= 83 {
        5600
    } else if b <= 84 {
        5740
    } else if b <= 85 {
        5882
    } else if b <= 86 {
        6026
    } else if b <= 87 {
        6173
    } else if b <= 88 {
        6321
    } else if b <= 89 {
        6471
    } else if b <= 90 {
        6624
    } else if b <= 91 {
        6779
    } else if b <= 92 {
        6935
    } else if b <= 93 {
        7094
    } else if b <= 94 {
        7255
    } else if b <= 95 {
        7418
    } else if b <= 96 {
        7583
    } else if b <= 97 {
        7750
    } else if b <= 98 {
        7920
    } else if b <= 99 {
        8091
    } else if b <= 100 {
        8265
    } else if b <= 101 {
        8440
    } else if b <= 102 {
        8618
    } else if b <= 103 {
        8798
    } else if b <= 104 {
        8981
    } else if b <= 105 {
        9165
    } else if b <= 106 {
        9352
    } else if b <= 107 {
        9541
    } else if b <= 108 {
        9732
    } else if b <= 109 {
        9925
    } else if b <= 110 {
        10121
    } else if b <= 111 {
        10318
    } else if b <= 112 {
        10518
    } else if b <= 113 {
        10721
    } else if b <= 114 {
        10925
    } else if b <= 115 {
        11132
    } else if b <= 116 {
        11341
    } else if b <= 117 {
        11552
    } else if b <= 118 {
        11766
    } else if b <= 119 {
        11981
    } else if b <= 120 {
        12200
    } else if b <= 121 {
        12420
    } else if b <= 122 {
        12643
    } else if b <= 123 {
        12868
    } else if b <= 124 {
        13095
    } else if b <= 125 {
        13325
    } else if b <= 126 {
        13557
    } else if b <= 127 {
        13791
    } else if b <= 128 {
        14028
    } else if b <= 129 {
        14267
    } else if b <= 130 {
        14508
    } else if b <= 131 {
        14752
    } else if b <= 132 {
        14998
    } else if b <= 133 {
        15247
    } else if b <= 134 {
        15498
    } else if b <= 135 {
        15751
    } else if b <= 136 {
        16007
    } else if b <= 137 {
        16265
    } else if b <= 138 {
        16525
    } else if b <= 139 {
        16788
    } else if b <= 140 {
        17054
    } else if b <= 141 {
        17322
    } else if b <= 142 {
        17592
    } else if b <= 143 {
        17864
    } else if b <= 144 {
        18140
    } else if b <= 145 {
        18417
    } else if b <= 146 {
        18697
    } else if b <= 147 {
        18980
    } else if b <= 148 {
        19265
    } else if b <= 149 {
        19552
    } else if b <= 150 {
        19842
    } else if b <= 151 {
        20135
    } else if b <= 152 {
        20430
    } else if b <= 153 {
        20727
    } else if b <= 154 {
        21027
    } else if b <= 155 {
        21330
    } else if b <= 156 {
        21635
    } else if b <= 157 {
        21942
    } else if b <= 158 {
        22252
    } else if b <= 159 {
        22565
    } else if b <= 160 {
        22880
    } else if b <= 161 {
        23198
    } else if b <= 162 {
        23518
    } else if b <= 163 {
        23841
    } else if b <= 164 {
        24166
    } else if b <= 165 {
        24494
    } else if b <= 166 {
        24825
    } else if b <= 167 {
        25158
    } else if b <= 168 {
        25494
    } else if b <= 169 {
        25832
    } else if b <= 170 {
        26173
    } else if b <= 171 {
        26517
    } else if b <= 172 {
        26863
    } else if b <= 173 {
        27212
    } else if b <= 174 {
        27563
    } else if b <= 175 {
        27917
    } else if b <= 176 {
        28274
    } else if b <= 177 {
        28633
    } else if b <= 178 {
        28995
    } else if b <= 179 {
        29360
    } else if b <= 180 {
        29727
    } else if b <= 181 {
        30097
    } else if b <= 182 {
        30470
    } else if b <= 183 {
        30845
    } else if b <= 184 {
        31223
    } else if b <= 185 {
        31604
    } else if b <= 186 {
        31987
    } else if b <= 187 {
        32373
    } else if b <= 188 {
        32762
    } else if b <= 189 {
        33154
    } else if b <= 190 {
        33548
    } else if b <= 191 {
        33945
    } else if b <= 192 {
        34345
    } else if b <= 193 {
        34747
    } else if b <= 194 {
        35152
    } else if b <= 195 {
        35560
    } else if b <= 196 {
        35971
    } else if b <= 197 {
        36384
    } else if b <= 198 {
        36800
    } else if b <= 199 {
        37219
    } else if b <= 200 {
        37641
    } else if b <= 201 {
        38065
    } else if b <= 202 {
        38493
    } else if b <= 203 {
        38923
    } else if b <= 204 {
        39355
    } else if b <= 205 {
        39791
    } else if b <= 206 {
        40229
    } else if b <= 207 {
        40671
    } else if b <= 208 {
        41115
    } else if b <= 209 {
        41562
    } else if b <= 210 {
        42011
    } else if b <= 211 {
        42464
    } else if b <= 212 {
        42919
    } else if b <= 213 {
        43377
    } else if b <= 214 {
        43838
    } else if b <= 215 {
        44302
    } else if b <= 216 {
        44769
    } else if b <= 217 {
        45238
    } else if b <= 218 {
        45711
    } else if b <= 219 {
        46186
    } else if b <= 220 {
        46664
    } else if b <= 221 {
        47145
    } else if b <= 222 {
        47629
    } else if b <= 223 {
        48116
    } else if b <= 224 {
        48605
    } else if b <= 225 {
        49098
    } else if b <= 226 {
        49593
    } else if b <= 227 {
        50092
    } else if b <= 228 {
        50593
    } else if b <= 229 {
        51097
    } else if b <= 230 {
        51604
    } else if b <= 231 {
        52114
    } else if b <= 232 {
        52627
    } else if b <= 233 {
        53143
    } else if b <= 234 {
        53662
    } else if b <= 235 {
        54184
    } else if b <= 236 {
        54709
    } else if b <= 237 {
        55236
    } else if b <= 238 {
        55767
    } else if b <= 239 {
        56300
    } else if b <= 240 {
        56837
    } else if b <= 241 {
        57377
    } else if b <= 242 {
        57919
    } else if b <= 243 {
        58465
    } else if b <= 244 {
        59013
    } else if b <= 245 {
        59564
    } else if b <= 246 {
        60119
    } else if b <= 247 {
        60676
    } else if b <= 248 {
        61237
    } else if b <= 249 {
        61800
    } else if b <= 250 {
        62367
    } else if b <= 251 {
        62936
    } else if b <= 252 {
        63509
    } else if b <= 253 {
        64084
    } else if b <= 254 {
        64663
    } else {
        65245
    }
}

/// The sRGB level of a linear-light value: the level whose bucket the value
/// falls in, clamped to [0, 255].
pub open spec fn linear_to_srgb_spec(v: int) -> int {
    if v < 10 {
        0
    } else if v < 30 {
        1
    } else if v < 50 {
        2
    } else if v < 70 {
        3
    } else if v < 90 {
        4
    } else if v < 110 {
        5
    } else if v < 130 {
        6
    } else if v < 150 {
        7
    } else if v < 170 {
        8
    } else if v < 189 {
        9
    } else if v < 209 {
        10
    } else if v < 230 {
        11
    } else if v < 253 {
        12
    } else if v < 276 {
        13
    } else if v < 301 {
        14
    } else if v < 327 {
        15
    } else if v < 354 {
        16
    } else if v < 382 {
        17
    } else if v < 412 {
        18
    } else if v < 443 {
        19
    } else if v < 475 {
        20
    } else if v < 509 {
        21
    } else if v < 544 {
        22
    } else if v < 580 {
        23
    } else if v < 618 {
        24
    } else if v < 657 {
        25
    } else if v < 698 {
        26
    } else if v < 740 {
        27
    } else if v < 783 {
        28
    } else if v < 828 {
        29
    } else if v < 875 {
        30
    } else if v < 923 {
        31
    } else if v < 972 {
        32
    } else if v < 1023 {
        33
    } else if v < 1075 {
        34
    } else if v < 1129 {
        35
    } else if v < 1185 {
        36
    } else if v < 1242 {
        37
    } else if v < 1300 {
        38
    } else if v < 1360 {
        39
    } else if v < 1422 {
        40
    } else if v < 1486 {
        41
    } else if v < 1551 {
        42
    } else if v < 1617 {
        43
    } else if v < 1685 {
        44
    } else if v < 1755 {
        45
    } else if v < 1827 {
        46
    } else if v < 1900 {
        47
    } else if v < 1975 {
        48
    } else if v < 2052 {
        49
    } else if v < 2130 {
        50
    } else if v < 2210 {
        51
    } else if v < 2292 {
        52
    } else if v < 2376 {
        53
    } else if v < 2461 {
        54
    } else if v < 2548 {
        55
    } else if v < 2637 {
        56
    } else if v < 2727 {
        57
    } else if v < 2820 {
        58
    } else if v < 2914 {
        59
    } else if v < 3010 {
        60
    } else if v < 3108 {
        61
    } else if v < 3208 {
        62
    } else if v < 3309 {
        63
    } else if v < 3412 {
        64
    } else if v < 3518 {
        65
    } else if v < 3625 {
        66
    } else if v < 3734 {
        67
    } else if v < 3844 {
        68
    } else if v < 3957 {
        69
    } else if v < 4072 {
        70
    } else if v < 4188 {
        71
    } else if v < 4307 {
        72
    } else if v < 4427 {
        73
    } else if v < 4550 {
        74
    } else if v < 4674 {
        75
    } else if v < 4800 {
        76
    } else if v < 4929 {
        77
    } else if v < 5059 {
        78
    } else if v < 5191 {
        79
    } else if v < 5325 {
        80
    } else if v < 5461 {
        81
    } else if v < 5600 {
        82
    } else if v < 5740 {
        83
    } else if v < 5882 {
        84
    } else if v < 6026 {
        85
    } else if v < 6173 {
        86
    } else if v < 6321 {
        87
    } else if v < 6471 {
        88
    } else if v < 6624 {
        89
    } else if v < 6779 {
        90
    } else if v < 6935 {
        91
    } else if v < 7094 {
        92
    } else if v < 7255 {
        93
    } else if v < 7418 {
        94
    } else if v < 7583 {
        95
    } else if v < 7750 {
        96
    } else if v < 7920 {
        97
    } else if v < 8091 {
        98
    } else if v < 8265 {
        99
    } else if v < 8440 {
        100
    } else if v < 8618 {
        101
    } else if v < 8798 {
        102
    } else if v < 8981 {
        103
    } else if v < 9165 {
        104
    } else if v < 9352 {
        105
    } else if v < 9541 {
        106
    } else if v < 9732 {
        107
    } else if v < 9925 {
        108
    } else if v < 10121 {
        109
    } else if v < 10318 {
        110
    } else if v < 10518 {
        111
    } else if v < 10721 {
        112
    } else if v < 10925 {
        113
    } else if v < 11132 {
        114
    } else if v < 11341 {
        115
    } else if v < 11552 {
        116
    } else if v < 11766 {
        117
    } else if v < 11981 {
        118
    } else if v < 12200 {
        119
    } else if v < 12420 {
        120
    } else if v < 12643 {
        121
    } else if v < 12868 {
        122
    } else if v < 13095 {
        123
    } else if v < 13325 {
        124
    } else if v < 13557 {
        125
    } else if v < 13791 {
        126
    } else if v < 14028 {
        127
    } else if v < 14267 {
        128
    } else if v < 14508 {
        129
    } else if v < 14752 {
        130
    } else if v < 14998 {
        131
    } else if v < 15247 {
        132
    } else if v < 15498 {
        133
    } else if v < 15751 {
        134
    } else if v < 16007 {
        135
    } else if v < 16265 {
        136
    } else if v < 16525 {
        137
    } else if v < 16788 {
        138
    } else if v < 17054 {
        139
    } else if v < 17322 {
        140
    } else if v < 17592 {
        141
    } else if v < 17864 {
        142
    } else if v < 18140 {
        143
    } else if v < 18417 {
        144
    } else if v < 18697 {
        145
    } else if v < 18980 {
        146
    } else if v < 19265 {
        147
    } else if v < 19552 {
        148
    } else if v < 19842 {
        149
    } else if v < 20135 {
        150
    } else if v < 20430 {
        151
    } else if v < 20727 {
        152
    } else if v < 21027 {
        153
    } else if v < 21330 {
        154
    } else if v < 21635 {
        155
    } else if v < 21942 {
        156
    } else if v < 22252 {
        157
    } else if v < 22565 {
        158
    } else if v < 22880 {
        159
    } else if v < 23198 {
        160
    } else if v < 23518 {
        161
    } else if v < 23841 {
        162
    } else if v < 24166 {
        163
    } else if v < 24494 {
        164
    } else if v < 24825 {
        165
    } else if v < 25158 {
        166
    } else if v < 25494 {
        167
    } else if v < 25832 {
        168
    } else if v < 26173 {
        169
    } else if v < 26517 {
        170
    } else if v < 26863 {
        171
    } else if v < 27212 {
        172
    } else if v < 27563 {
        173
    } else if v < 27917 {
        174
    } else if v < 28274 {
        175
    } else if v < 28633 {
        176
    } else if v < 28995 {
        177
    } else if v < 29360 {
        178
    } else if v < 29727 {
        179
    } else if v < 30097 {
        180
    } else if v < 30470 {
        181
    } else if v < 30845 {
        182
    } else if v < 31223 {
        183
    } else if v < 31604 {
        184
    } else if v < 31987 {
        185
    } else if v < 32373 {
        186
    } else if v < 32762 {
        187
    } else if v < 33154 {
        188
    } else if v < 33548 {
        189
    } else if v < 33945 {
        190
    } else if v < 34345 {
        191
    } else if v < 34747 {
        192
    } else if v < 35152 {
        193
    } else if v < 35560 {
        194
    } else if v < 35971 {
        195
    } else if v < 36384 {
        196
    } else if v < 36800 {
        197
    } else if v < 37219 {
        198
    } else if v < 37641 {
        199
    } else if v < 38065 {
        200
    } else if v < 38493 {
        201
    } else if v < 38923 {
        202
    } else if v < 39355 {
        203
    } else if v < 39791 {
        204
    } else if v < 40229 {
        205
    } else if v < 40671 {
        206
    } else if v < 41115 {
        207
    } else if v < 41562 {
        208
    } else if v < 42011 {
        209
    } else if v < 42464 {
        210
    } else if v < 42919 {
        211
    } else if v < 43377 {
        212
    } else if v < 43838 {
        213
    } else if v < 44302 {
        214
    } else if v < 44769 {
        215
    } else if v < 45238 {
        216
    } else if v < 45711 {
        217
    } else if v < 46186 {
        218
    } else if v < 46664 {
        219
    } else if v < 47145 {
        220
    } else if v < 47629 {
        221
    } else if v < 48116 {
        222
    } else if v < 48605 {
        223
    } else if v < 49098 {
        224
    } else if v < 49593 {
        225
    } else if v < 50092 {
        226
    } else if v < 50593 {
        227
    } else if v < 51097 {
        228
    } else if v < 51604 {
        229
    } else if v < 52114 {
        230
    } else if v < 52627 {
        231
    } else if v < 53143 {
        232
    } else if v < 53662 {
        233
    } else if v < 54184 {
        234
    } else if v < 54709 {
        235
    } else if v < 55236 {
        236
    } else if v < 55767 {
        237
    } else if v < 56300 {
        238
    } else if v < 56837 {
        239
    } else if v < 57377 {
        240
    } else if v < 57919 {
        241
    } else if v < 58465 {
        242
    } else if v < 59013 {
        243
    } else if v < 59564 {
        244
    } else if v < 60119 {
        245
    } else if v < 60676 {
        246
    } else if v < 61237 {
        247
    } else if v < 61800 {
        248
    } else if v < 62367 {
        249
    } else if v < 62936 {
        250
    } else if v < 63509 {
        251
    } else if v < 64084 {
        252
    } else if v < 64663 {
        253
    } else if v < 65245 {
        254
    } else {
        255
    }
}

/// Converts an 8-bit sRGB sample to linear light (units of 1/65536).
pub fn srgb2linear(b: u8) -> (r: i64)
    ensures
        r == srgb_table(b as int),
        0 <= r <= SCALE,
{
    if b == 0 {
        0
    } else if b == 1 {
        20
    } else if b == 2 {
        40
    } else if b == 3 {
        60
    } else if b == 4 {
        80
    } else if b == 5 {
        99
    } else if b == 6 {
        119
    } else if b == 7 {
        139
    } else if b == 8 {
        159
    } else if b == 9 {
        179
    } else if b == 10 {
        199
    } else if b == 11 {
        219
    } else if b == 12 {
        241
    } else if b == 13 {
        264
    } else if b == 14 {
        288
    } else if b == 15 {
        313
    } else if b == 16 {
        340
    } else if b == 17 {
        367
    } else if b == 18 {
        396
    } else if b == 19 {
        427
    } else if b == 20 {
        458
    } else if b == 21 {
        491
    } else if b == 22 {
        526
    } else if b == 23 {
        562
    } else if b == 24 {
        599
    } else if b == 25 {
        637
    } else if b == 26 {
        677
    } else if b == 27 {
        718
    } else if b == 28 {
        761
    } else if b == 29 {
        805
    } else if b == 30 {
        851
    } else if b == 31 {
        898
    } else if b == 32 {
        947
    } else if b == 33 {
        997
    } else if b == 34 {
        1048
    } else if b == 35 {
        1101
    } else if b == 36 {
        1156
    } else if b == 37 {
        1212
    } else if b == 38 {
        1270
    } else if b == 39 {
        1330
    } else if b == 40 {
        1391
    } else if b == 41 {
        1453
    } else if b == 42 {
        1517
    } else if b == 43 {
        1583
    } else if b == 44 {
        1651
    } else if b == 45 {
        1720
    } else if b == 46 {
        1791
    } else if b == 47 {
        1863
    } else if b == 48 {
        1937
    } else if b == 49 {
        2013
    } else if b == 50 {
        2090
    } else if b == 51 {
        2170
    } else if b == 52 {
        2250
    } else if b == 53 {
        2333
    } else if b == 54 {
        2418
    } else if b == 55 {
        2504
    } else if b == 56 {
        2592
    } else if b == 57 {
        2681
    } else if b == 58 {
        2773
    } else if b == 59 {
        2866
    } else if b == 60 {
        2961
    } else if b == 61 {
        3058
    } else if b == 62 {
        3157
    } else if b == 63 {
        3258
    } else if b == 64 {
        3360
    } else if b == 65 {
        3464
    } else if b == 66 {
        3570
    } else if b == 67 {
        3678
    } else if b == 68 {
        3788
    } else if b == 69 {
        3900
    } else if b == 70 {
        4014
    } else if b == 71 {
        4129
    } else if b == 72 {
        4247
    } else if b == 73 {
        4366
    } else if b == 74 {
        4488
    } else if b == 75 {
        4611
    } else if b == 76 {
        4736
    } else if b == 77 {
        4864
    } else if b == 78 {
        4993
    } else if b == 79 {
        5124
    } else if b == 80 {
        5257
    } else if b == 81 {
        5392
    } else if b == 82 {
        5530
    } else if b == 83 {
        5669
    } else if b == 84 {
        5810
    } else if b == 85 {
        5953
    } else if b == 86 {
        6099
    } else if b == 87 {
        6246
    } else if b == 88 {
        6395
    } else if b == 89 {
        6547
    } else if b == 90 {
        6701
    } else if b == 91 {
        6856
    } else if b == 92 {
        7014
    } else if b == 93 {
        7174
    } else if b == 94 {
        7336
    } else if b == 95 {
        7500
    } else if b == 96 {
        7666
    } else if b == 97 {
        7834
    } else if b == 98 {
        8004
    } else if b == 99 {
        8177
    } else if b == 100 {
        8352
    } else if b == 101 {
        8529
    } else if b == 102 {
        8708
    } else if b == 103 {
        8889
    } else if b == 104 {
        9072
    } else if b == 105 {
        9258
    } else if b == 106 {
        9446
    } else if b == 107 {
        9636
    } else if b == 108 {
        9828
    } else if b == 109 {
        10022
    } else if b == 110 {
        10219
    } else if b == 111 {
        10418
    } else if b == 112 {
        10619
    } else if b == 113 {
        10822
    } else if b == 114 {
        11028
    } else if b == 115 {
        11236
    } else if b == 116 {
        11446
    } else if b == 117 {
        11658
    } else if b == 118 {
        11873
    } else if b == 119 {
        12090
    } else if b == 120 {
        12309
    } else if b == 121 {
        12531
    } else if b == 122 {
        12754
    } else if b == 123 {
        12981
    } else if b == 124 {
        13209
    } else if b == 125 {
        13440
    } else if b == 126 {
        13673
    } else if b == 127 {
        13909
    } else if b == 128 {
        14147
    } else if b == 129 {
        14387
    } else if b == 130 {
        14629
    } else if b == 131 {
        14874
    } else if b == 132 {
        15122
    } else if b == 133 {
        15372
    } else if b == 134 {
        15624
    } else if b == 135 {
        15878
    } else if b == 136 {
        16135
    } else if b == 137 {
        16394
    } else if b == 138 {
        16656
    } else if b == 139 {
        16920
    } else if b == 140 {
        17187
    } else if b == 141 {
        17456
    } else if b == 142 {
        17727
    } else if b == 143 {
        18001
    } else if b == 144 {
        18278
    } else if b == 145 {
        18556
    } else if b == 146 {
        18838
    } else if b == 147 {
        19121
    } else if b == 148 {
        19408
    } else if b == 149 {
        19696
    } else if b == 150 {
        19988
    } else if b == 151 {
        20281
    } else if b == 152 {
        20578
    } else if b == 153 {
        20876
    } else if b == 154 {
        21178
    } else if b == 155 {
        21481
    } else if b == 156 {
        21788
    } else if b == 157 {
        22096
    } else if b == 158 {
        22408
    } else if b == 159 {
        22722
    } else if b == 160 {
        23038
    } else if b == 161 {
        23357
    } else if b == 162 {
        23679
    } else if b == 163 {
        24003
    } else if b == 164 {
        24329
    } else if b == 165 {
        24659
    } else if b == 166 {
        24991
    } else if b == 167 {
        25325
    } else if b == 168 {
        25662
    } else if b == 169 {
        26002
    } else if b == 170 {
        26344
    } else if b == 171 {
        26689
    } else if b == 172 {
        27036
    } else if b == 173 {
        27387
    } else if b == 174 {
        27739
    } else if b == 175 {
        28095
    } else if b == 176 {
        28453
    } else if b == 177 {
        28813
    } else if b == 178 {
        29177
    } else if b == 179 {
        29543
    } else if b == 180 {
        29911
    } else if b == 181 {
        30283
    } else if b == 182 {
        30657
    } else if b == 183 {
        31033
    } else if b == 184 {
        31413
    } else if b == 185 {
        31795
    } else if b == 186 {
        32180
    } else if b == 187 {
        32567
    } else if b == 188 {
        32957
    } else if b == 189 {
        33350
    } else if b == 190 {
        33746
    } else if b == 191 {
        34144
    } else if b == 192 {
        34545
    } else if b == 193 {
        34949
    } else if b == 194 {
        35355
    } else if b == 195 {
        35765
    } else if b == 196 {
        36177
    } else if b == 197 {
        36591
    } else if b == 198 {
        37009
    } else if b == 199 {
        37429
    } else if b == 200 {
        37852
    } else if b == 201 {
        38278
    } else if b == 202 {
        38707
    } else if b == 203 {
        39138
    } else if b == 204 {
        39572
    } else if b == 205 {
        40009
    } else if b == 206 {
        40449
    } else if b == 207 {
        40892
    } else if b == 208 {
        41337
    } else if b == 209 {
        41786
    } else if b == 210 {
        42237
    } else if b == 211 {
        42691
    } else if b == 212 {
        43147
    } else if b == 213 {
        43607
    } else if b == 214 {
        44069
    } else if b == 215 {
        44534
    } else if b == 216 {
        45003
    } else if b == 217 {
        45474
    } else if b == 218 {
        45947
    } else if b == 219 {
        46424
    } else if b == 220 {
        46904
    } else if b == 221 {
        47386
    } else if b == 222 {
        47871
    } else if b == 223 {
        48360
    } else if b == 224 {
        48851
    } else if b == 225 {
        49345
    } else if b == 226 {
        49842
    } else if b == 227 {
        50342
    } else if b == 228 {
        50844
    } else if b == 229 {
        51350
    } else if b == 230 {
        51859
    } else if b == 231 {
        52370
    } else if b == 232 {
        52884
    } else if b == 233 {
        53402
    } else if b == 234 {
        53922
    } else if b == 235 {
        54445
    } else if b == 236 {
        54972
    } else if b == 237 {
        55501
    } else if b == 238 {
        56033
    } else if b == 239 {
        56568
    } else if b == 240 {
        57106
    } else if b == 241 {
        57647
    } else if b == 242 {
        58191
    } else if b == 243 {
        58738
    } else if b == 244 {
        59288
    } else if b == 245 {
        59841
    } else if b == 246 {
        60397
    } else if b == 247 {
        60956
    } else if b == 248 {
        61518
    } else if b == 249 {
        62083
    } else if b == 250 {
        62651
    } else if b == 251 {
        63222
    } else if b == 252 {
        63796
    } else if b == 253 {
        64373
    } else if b == 254 {
        64953
    } else {
        65536
    }
}

/// Converts a linear-light value (units of 1/65536) back to an 8-bit sRGB
/// sample, clamping to [0, 255]; values outside [0, 65536] saturate.
pub fn linear2srgb(v: i64) -> (r: u8)
    ensures
        r as int == linear_to_srgb_spec(v as int),
{
    if v < 10 {
        0
    } else if v < 30 {
        1
    } else if v < 50 {
        2
    } else if v < 70 {
        3
    } else if v < 90 {
        4
    } else if v < 110 {
        5
    } else if v < 130 {
        6
    } else if v < 150 {
        7
    } else if v < 170 {
        8
    } else if v < 189 {
        9
    } else if v < 209 {
        10
    } else if v < 230 {
        11
    } else if v < 253 {
        12
    } else if v < 276 {
        13
    } else if v < 301 {
        14
    } else if v < 327 {
        15
    } else if v < 354 {
        16
    } else if v < 382 {
        17
    } else if v < 412 {
        18
    } else if v < 443 {
        19
    } else if v < 475 {
        20
    } else if v < 509 {
        21
    } else if v < 544 {
        22
    } else if v < 580 {
        23
    } else if v < 618 {
        24
    } else if v < 657 {
        25
    } else if v < 698 {
        26
    } else if v < 740 {
        27
    } else if v < 783 {
        28
    } else if v < 828 {
        29
    } else if v < 875 {
        30
    } else if v < 923 {
        31
    } else if v < 972 {
        32
    } else if v < 1023 {
        33
    } else if v < 1075 {
        34
    } else if v < 1129 {
        35
    } else if v < 1185 {
        36
    } else if v < 1242 {
        37
    } else if v < 1300 {
        38
    } else if v < 1360 {
        39
    } else if v < 1422 {
        40
    } else if v < 1486 {
        41
    } else if v < 1551 {
        42
    } else if v < 1617 {
        43
    } else if v < 1685 {
        44
    } else if v < 1755 {
        45
    } else if v < 1827 {
        46
    } else if v < 1900 {
        47
    } else if v < 1975 {
        48
    } else if v < 2052 {
        49
    } else if v < 2130 {
        50
    } else if v < 2210 {
        51
    } else if v < 2292 {
        52
    } else if v < 2376 {
        53
    } else if v < 2461 {
        54
    } else if v < 2548 {
        55
    } else if v < 2637 {
        56
    } else if v < 2727 {
        57
    } else if v < 2820 {
        58
    } else if v < 2914 {
        59
    } else if v < 3010 {
        60
    } else if v < 3108 {
        61
    } else if v < 3208 {
        62
    } else if v < 3309 {
        63
    } else if v < 3412 {
        64
    } else if v < 3518 {
        65
    } else if v < 3625 {
        66
    } else if v < 3734 {
        67
    } else if v < 3844 {
        68
    } else if v < 3957 {
        69
    } else if v < 4072 {
        70
    } else if v < 4188 {
        71
    } else if v < 4307 {
        72
    } else if v < 4427 {
        73
    } else if v < 4550 {
        74
    } else if v < 4674 {
        75
    } else if v < 4800 {
        76
    } else if v < 4929 {
        77
    } else if v < 5059 {
        78
    } else if v < 5191 {
        79
    } else if v < 5325 {
        80
    } else if v < 5461 {
        81
    } else if v < 5600 {
        82
    } else if v < 5740 {
        83
    } else if v < 5882 {
        84
    } else if v < 6026 {
        85
    } else if v < 6173 {
        86
    } else if v < 6321 {
        87
    } else if v < 6471 {
        88
    } else if v < 6624 {
        89
    } else if v < 6779 {
        90
    } else if v < 6935 {
        91
    } else if v < 7094 {
        92
    } else if v < 7255 {
        93
    } else if v < 7418 {
        94
    } else if v < 7583 {
        95
    } else if v < 7750 {
        96
    } else if v < 7920 {
        97
    } else if v < 8091 {
        98
    } else if v < 8265 {
        99
    } else if v < 8440 {
        100
    } else if v < 8618 {
        101
    } else if v < 8798 {
        102
    } else if v < 8981 {
        103
    } else if v < 9165 {
        104
    } else if v < 9352 {
        105
    } else if v < 9541 {
        106
    } else if v < 9732 {
        107
    } else if v < 9925 {
        108
    } else if v < 10121 {
        109
    } else if v < 10318 {
        110
    } else if v < 10518 {
        111
    } else if v < 10721 {
        112
    } else if v < 10925 {
        113
    } else if v < 11132 {
        114
    } else if v < 11341 {
        115
    } else if v < 11552 {
        116
    } else if v < 11766 {
        117
    } else if v < 11981 {
        118
    } else if v < 12200 {
        119
    } else if v < 12420 {
        120
    } else if v < 12643 {
        121
    } else if v < 12868 {
        122
    } else if v < 13095 {
        123
    } else if v < 13325 {
        124
    } else if v < 13557 {
        125
    } else if v < 13791 {
        126
    } else if v < 14028 {
        127
    } else if v < 14267 {
        128
    } else if v < 14508 {
        129
    } else if v < 14752 {
        130
    } else if v < 14998 {
        131
    } else if v < 15247 {
        132
    } else if v < 15498 {
        133
    } else if v < 15751 {
        134
    } else if v < 16007 {
        135
    } else if v < 16265 {
        136
    } else if v < 16525 {
        137
    } else if v < 16788 {
        138
    } else if v < 17054 {
        139
    } else if v < 17322 {
        140
    } else if v < 17592 {
        141
    } else if v < 17864 {
        142
    } else if v < 18140 {
        143
    } else if v < 18417 {
        144
    } else if v < 18697 {
        145
    } else if v < 18980 {
        146
    } else if v < 19265 {
        147
    } else if v < 19552 {
        148
    } else if v < 19842 {
        149
    } else if v < 20135 {
        150
    } else if v < 20430 {
        151
    } else if v < 20727 {
        152
    } else if v < 21027 {
        153
    } else if v < 21330 {
        154
    } else if v < 21635 {
        155
    } else if v < 21942 {
        156
    } else if v < 22252 {
        157
    } else if v < 22565 {
        158
    } else if v < 22880 {
        159
    } else if v < 23198 {
        160
    } else if v < 23518 {
        161
    } else if v < 23841 {
        162
    } else if v < 24166 {
        163
    } else if v < 24494 {
        164
    } else if v < 24825 {
        165
    } else if v < 25158 {
        166
    } else if v < 25494 {
        167
    } else if v < 25832 {
        168
    } else if v < 26173 {
        169
    } else if v < 26517 {
        170
    } else if v < 26863 {
        171
    } else if v < 27212 {
        172
    } else if v < 27563 {
        173
    } else if v < 27917 {
        174
    } else if v < 28274 {
        175
    } else if v < 28633 {
        176
    } else if v < 28995 {
        177
    } else if v < 29360 {
        178
    } else if v < 29727 {
        179
    } else if v < 30097 {
        180
    } else if v < 30470 {
        181
    } else if v < 30845 {
        182
    } else if v < 31223 {
        183
    } else if v < 31604 {
        184
    } else if v < 31987 {
        185
    } else if v < 32373 {
        186
    } else if v < 32762 {
        187
    } else if v < 33154 {
        188
    } else if v < 33548 {
        189
    } else if v < 33945 {
        190
    } else if v < 34345 {
        191
    } else if v < 34747 {
        192
    } else if v < 35152 {
        193
    } else if v < 35560 {
        194
    } else if v < 35971 {
        195
    } else if v < 36384 {
        196
    } else if v < 36800 {
        197
    } else if v < 37219 {
        198
    } else if v < 37641 {
        199
    } else if v < 38065 {
        200
    } else if v < 38493 {
        201
    } else if v < 38923 {
        202
    } else if v < 39355 {
        203
    } else if v < 39791 {
        204
    } else if v < 40229 {
        205
    } else if v < 40671 {
        206
    } else if v < 41115 {
        207
    } else if v < 41562 {
        208
    } else if v < 42011 {
        209
    } else if v < 42464 {
        210
    } else if v < 42919 {
        211
    } else if v < 43377 {
        212
    } else if v < 43838 {
        213
    } else if v < 44302 {
        214
    } else if v < 44769 {
        215
    } else if v < 45238 {
        216
    } else if v < 45711 {
        217
    } else if v < 46186 {
        218
    } else if v < 46664 {
        219
    } else if v < 47145 {
        220
    } else if v < 47629 {
        221
    } else if v < 48116 {
        222
    } else if v < 48605 {
        223
    } else if v < 49098 {
        224
    } else if v < 49593 {
        225
    } else if v < 50092 {
        226
    } else if v < 50593 {
        227
    } else if v < 51097 {
        228
    } else if v < 51604 {
        229
    } else if v < 52114 {
        230
    } else if v < 52627 {
        231
    } else if v < 53143 {
        232
    } else if v < 53662 {
        233
    } else if v < 54184 {
        234
    } else if v < 54709 {
        235
    } else if v < 55236 {
        236
    } else if v < 55767 {
        237
    } else if v < 56300 {
        238
    } else if v < 56837 {
        239
    } else if v < 57377 {
        240
    } else if v < 57919 {
        241
    } else if v < 58465 {
        242
    } else if v < 59013 {
        243
    } else if v < 59564 {
        244
    } else if v < 60119 {
        245
    } else if v < 60676 {
        246
    } else if v < 61237 {
        247
    } else if v < 61800 {
        248
    } else if v < 62367 {
        249
    } else if v < 62936 {
        250
    } else if v < 63509 {
        251
    } else if v < 64084 {
        252
    } else if v < 64663 {
        253
    } else if v < 65245 {
        254
    } else {
        255
    }
}

/// An 8-bit sRGB sample survives the round trip through linear light
/// exactly: converting to linear and back returns the same level.
pub proof fn lemma_srgb_round_trip(b: int)
    requires
        0 <= b <= 255,
    ensures
        linear_to_srgb_spec(srgb_table(b)) == b,
{
}

/// A linear-light value in [0, 65536] and its round trip through an 8-bit
/// sRGB sample fall in the same quantization bucket, so the round trip moves
/// the value by less than one 8-bit quantization step.
pub proof fn lemma_linear_round_trip(v: int)
    requires
        0 <= v <= 65536,
    ensures
        0 <= linear_to_srgb_spec(v) <= 255,
        linear_to_srgb_spec(v) > 0 ==> srgb_cut(linear_to_srgb_spec(v)) <= v
            && srgb_cut(linear_to_srgb_spec(v)) <= srgb_table(linear_to_srgb_spec(v)),
        linear_to_srgb_spec(v) < 255 ==> v < srgb_cut(linear_to_srgb_spec(v) + 1)
            && srgb_table(linear_to_srgb_spec(v)) < srgb_cut(linear_to_srgb_spec(v) + 1),
{
}

/// The inverse conversion always lands in the 8-bit range, whatever the
/// input value.
pub proof fn lemma_l2s_range(v: int)
    ensures
        0 <= linear_to_srgb_spec(v) <= 255,
{
}

} // verus!
