//! The binary32 constants of the kernels, by their bits.
use vstd::prelude::*;

verus! {

/// -50000.0
pub const MINUS_F50000: u32 = 0xc743_5000;

/// -30000.0
pub const MINUS_F30000: u32 = 0xc6ea_6000;

/// -150.0
pub const MINUS_F150: u32 = 0xc316_0000;

/// -96.0
pub const MINUS_F96: u32 = 0xc2c0_0000;

/// -50.0
pub const MINUS_F50: u32 = 0xc248_0000;

/// -48.0
pub const MINUS_F48: u32 = 0xc240_0000;

/// -12.0
pub const MINUS_F12: u32 = 0xc140_0000;

/// -7.0
pub const MINUS_F7: u32 = 0xc0e0_0000;

/// -6.283185307179586
pub const MINUS_TAU: u32 = 0xc0c9_0fdb;

/// -5.0
pub const MINUS_F5: u32 = 0xc0a0_0000;

/// -4.0
pub const MINUS_F4: u32 = 0xc080_0000;

/// -2.5
pub const MINUS_F2_5: u32 = 0xc020_0000;

/// -1.0
pub const MINUS_ONE: u32 = 0xbf80_0000;

/// -0.5
pub const MINUS_F0_5: u32 = 0xbf00_0000;

/// -0.3828
pub const MINUS_F0_3828: u32 = 0xbec3_fe5d;

/// -0.3043
pub const MINUS_F0_3043: u32 = 0xbe9b_cd36;

/// -0.09801591
pub const MINUS_F0_09801591: u32 = 0xbdc8_bc91;

/// -0.02867656
pub const MINUS_F0_02867656: u32 = 0xbcea_eb1b;

/// -0.00824247
pub const MINUS_F0_00824247: u32 = 0xbc07_0b6d;

/// -0.0025
pub const MINUS_F0_0025: u32 = 0xbb23_d70a;

/// -0.00188788
pub const MINUS_F0_00188788: u32 = 0xbaf7_72be;

/// -0.0
pub const MINUS_ZERO: u32 = 0x8000_0000;

/// 0.0
pub const ZERO: u32 = 0x0000_0000;

/// 1.1754943508222875e-38
pub const MIN_POSITIVE: u32 = 0x0080_0000;

/// 0.000000000001
pub const F0_000000000001: u32 = 0x2b8c_bccc;

/// 4.656612873077393e-10
pub const TWO_POW_MINUS_31: u32 = 0x3000_0000;

/// 1.1920929e-7
pub const EPSILON: u32 = 0x3400_0000;

/// 0.000001
pub const F0_000001: u32 = 0x3586_37bd;

/// 0.00001
pub const F0_00001: u32 = 0x3727_c5ac;

/// 0.0001
pub const F0_0001: u32 = 0x38d1_b717;

/// 0.001
pub const F0_001: u32 = 0x3a83_126f;

/// 0.00133336
pub const F0_00133336: u32 = 0x3aae_c423;

/// 0.00386248
pub const F0_00386248: u32 = 0x3b7d_21a9;

/// 0.005
pub const F0_005: u32 = 0x3ba3_d70a;

/// 0.0061
pub const F0_0061: u32 = 0x3bc7_e282;

/// 0.00961813
pub const F0_00961813: u32 = 0x3c1d_955c;

/// 0.01
pub const F0_01: u32 = 0x3c23_d70a;

/// 0.01594711
pub const F0_01594711: u32 = 0x3c82_a383;

/// 0.02
pub const F0_02: u32 = 0x3ca3_d70a;

/// 0.03
pub const F0_03: u32 = 0x3cf5_c28f;

/// 0.0451
pub const F0_0451: u32 = 0x3d38_bac7;

/// 0.05
pub const F0_05: u32 = 0x3d4c_cccd;

/// 0.05071856
pub const F0_05071856: u32 = 0x3d4f_be44;

/// 0.05550411
pub const F0_05550411: u32 = 0x3d63_5847;

/// 0.0833333358168602
pub const F0_0833333358168602: u32 = 0x3daa_aaab;

/// 0.0875
pub const F0_0875: u32 = 0x3db3_3333;

/// 0.0990460
pub const F0_0990460: u32 = 0x3dca_d8a1;

/// 0.1
pub const F0_1: u32 = 0x3dcc_cccd;

/// 0.11
pub const F0_11: u32 = 0x3de1_47ae;

/// 0.12
pub const F0_12: u32 = 0x3df5_c28f;

/// 0.125
pub const F0_125: u32 = 0x3e00_0000;

/// 0.15
pub const F0_15: u32 = 0x3e19_999a;

/// 0.1666666716337204
pub const F0_1666666716337204: u32 = 0x3e2a_aaab;

/// 0.1848
pub const F0_1848: u32 = 0x3e3d_3c36;

/// 0.1875
pub const F0_1875: u32 = 0x3e40_0000;

/// 0.2
pub const F0_2: u32 = 0x3e4c_cccd;

/// 0.225
pub const F0_225: u32 = 0x3e66_6666;

/// 0.23
pub const F0_23: u32 = 0x3e6b_851f;

/// 0.2402265
pub const F0_2402265: u32 = 0x3e75_fdf0;

/// 0.25
pub const F0_25: u32 = 0x3e80_0000;

/// 0.2965164
pub const F0_2965164: u32 = 0x3e97_d0ff;

/// 0.3
pub const F0_3: u32 = 0x3e99_999a;

/// 0.31594176
pub const F0_31594176: u32 = 0x3ea1_c31e;

/// 0.3333333432674408
pub const F0_3333333432674408: u32 = 0x3eaa_aaab;

/// 0.35
pub const F0_35: u32 = 0x3eb3_3333;

/// 0.37
pub const F0_37: u32 = 0x3ebd_70a4;

/// 0.375
pub const F0_375: u32 = 0x3ec0_0000;

/// 0.4
pub const F0_4: u32 = 0x3ecc_cccd;

/// 0.4082483
pub const F0_4082483: u32 = 0x3ed1_05ec;

/// 0.45
pub const F0_45: u32 = 0x3ee6_6666;

/// 0.5
pub const HALF: u32 = 0x3f00_0000;

/// 0.5007058
pub const F0_5007058: u32 = 0x3f00_2e41;

/// 0.52
pub const F0_52: u32 = 0x3f05_1eb8;

/// 0.55
pub const F0_55: u32 = 0x3f0c_cccd;

/// 0.57000
pub const F0_57000: u32 = 0x3f11_eb85;

/// 0.6
pub const F0_6: u32 = 0x3f19_999a;

/// 0.65
pub const F0_65: u32 = 0x3f26_6666;

/// 0.6666666865348816
pub const F0_6666666865348816: u32 = 0x3f2a_aaab;

/// 0.6931471805599453
pub const LN_2: u32 = 0x3f31_7218;

/// 0.7
pub const F0_7: u32 = 0x3f33_3333;

/// 0.75
pub const F0_75: u32 = 0x3f40_0000;

/// 0.78
pub const F0_78: u32 = 0x3f47_ae14;

/// 0.8
pub const F0_8: u32 = 0x3f4c_cccd;

/// 0.85
pub const F0_85: u32 = 0x3f59_999a;

/// 0.88
pub const F0_88: u32 = 0x3f61_47ae;

/// 0.95
pub const F0_95: u32 = 0x3f73_3333;

/// 0.9589
pub const F0_9589: u32 = 0x3f75_7a78;

/// 0.96300
pub const F0_96300: u32 = 0x3f76_872b;

/// 0.99
pub const F0_99: u32 = 0x3f7d_70a4;

/// 0.99765
pub const F0_99765: u32 = 0x3f7f_65fe;

/// 0.999
pub const F0_999: u32 = 0x3f7f_be77;

/// 0.9990000128746033
pub const ONE_LESS_F0_001: u32 = 0x3f7f_be77;

/// 0.999999
pub const F0_999999: u32 = 0x3f7f_ffef;

/// 1.0
pub const ONE: u32 = 0x3f80_0000;

/// 1.0526913
pub const F1_0526913: u32 = 0x3f86_be97;

/// 1.2
pub const F1_2: u32 = 0x3f99_999a;

/// 1.3333333730697632
pub const F1_3333333730697632: u32 = 0x3faa_aaab;

/// 1.5
pub const F1_5: u32 = 0x3fc0_0000;

/// 2.0
pub const TWO: u32 = 0x4000_0000;

/// 2.5
pub const F2_5: u32 = 0x4020_0000;

/// 2.6666667461395264
pub const F2_6666667461395264: u32 = 0x402a_aaab;

/// 3.0
pub const F3: u32 = 0x4040_0000;

/// 3.141592653589793
pub const PI: u32 = 0x4049_0fdb;

/// 4.0
pub const FOUR: u32 = 0x4080_0000;

/// 5.0
pub const F5: u32 = 0x40a0_0000;

/// 6.0
pub const F6: u32 = 0x40c0_0000;

/// 6.283185307179586
pub const TAU: u32 = 0x40c9_0fdb;

/// 7.0
pub const F7: u32 = 0x40e0_0000;

/// 8.0
pub const F8: u32 = 0x4100_0000;

/// 8.175799
pub const F8_175799: u32 = 0x4102_d013;

/// 10.0
pub const F10: u32 = 0x4120_0000;

/// 12.0
pub const F12: u32 = 0x4140_0000;

/// 16.0
pub const F16: u32 = 0x4180_0000;

/// 17.0
pub const F17: u32 = 0x4188_0000;

/// 20.0
pub const F20: u32 = 0x41a0_0000;

/// 21.0
pub const F21: u32 = 0x41a8_0000;

/// 25.0
pub const F25: u32 = 0x41c8_0000;

/// 32.0
pub const F32: u32 = 0x4200_0000;

/// 35.0
pub const F35: u32 = 0x420c_0000;

/// 40.0
pub const F40: u32 = 0x4220_0000;

/// 48.0
pub const F48: u32 = 0x4240_0000;

/// 50.0
pub const F50: u32 = 0x4248_0000;

/// 60.0
pub const F60: u32 = 0x4270_0000;

/// 69.0
pub const F69: u32 = 0x428a_0000;

/// 96.0
pub const F96: u32 = 0x42c0_0000;

/// 100.0
pub const F100: u32 = 0x42c8_0000;

/// 120.0
pub const F120: u32 = 0x42f0_0000;

/// 127.0
pub const F127: u32 = 0x42fe_0000;

/// 128.0
pub const F128: u32 = 0x4300_0000;

/// 180.0
pub const F180: u32 = 0x4334_0000;

/// 210.0
pub const F210: u32 = 0x4352_0000;

/// 396.0
pub const F396: u32 = 0x43c6_0000;

/// 662.0
pub const F662: u32 = 0x4425_8000;

/// 1000.0
pub const F1000: u32 = 0x447a_0000;

/// 1024.0
pub const F1024: u32 = 0x4480_0000;

/// 1194.0
pub const F1194: u32 = 0x4495_4000;

/// 1200.0
pub const F1200: u32 = 0x4496_0000;

/// 1260.0
pub const F1260: u32 = 0x449d_8000;

/// 1726.0
pub const F1726: u32 = 0x44d7_c000;

/// 2790.0
pub const F2790: u32 = 0x452e_6000;

/// 3328.0
pub const F3328: u32 = 0x4550_0000;

/// 4725.0
pub const F4725: u32 = 0x4593_a800;

/// 8000.0
pub const F8000: u32 = 0x45fa_0000;

/// 8192.0
pub const F8192: u32 = 0x4600_0000;

/// 10395.0
pub const F10395: u32 = 0x4622_6c00;

/// 18000.0
pub const F18000: u32 = 0x468c_a000;

/// 20000.0
pub const F20000: u32 = 0x469c_4000;

/// 30000.0
pub const F30000: u32 = 0x46ea_6000;

/// 9223372036854775808.0
pub const TWO_POW_63: u32 = 0x5f00_0000;

/// 3.4028234663852886e38
pub const LARGEST: u32 = 0x7f7f_ffff;

} // verus!
